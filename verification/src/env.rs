//! Helpers for a program's start: the command line split into arguments
//! and options, and short ways to unwrap a value or to show it.

use vstd::prelude::*;
use vstd::string::StrSliceExecFns;
use vstd::string::StringExecFns;
use vstd::string::to_string_from_display_ensures;
use std::fmt::Display;

verus! {

/// Whether a word of the command line is an option: whether it starts
/// with `-` or with `+`.
pub open spec fn is_option(word: Seq<char>) -> bool {
    word.len() > 0 && (word[0] == '-' || word[0] == '+')
}

/// The words of `words` that are options (`options` true), or those that
/// are not (`options` false), in their order.
pub open spec fn select(words: Seq<String>, options: bool) -> Seq<String>
    decreases words.len(),
{
    if words.len() == 0 {
        Seq::empty()
    } else if is_option(words.last()@) == options {
        select(words.drop_last(), options).push(words.last())
    } else {
        select(words.drop_last(), options)
    }
}

/// The command line of a program: its name, its arguments and its options.
pub struct ArgsHelper {
    program_name: String,
    args: Vec<String>,
    options: Vec<String>,
}

impl ArgsHelper {
    pub closed spec fn program_name(&self) -> String {
        self.program_name
    }

    pub closed spec fn args(&self) -> Seq<String> {
        self.args@
    }

    pub closed spec fn options(&self) -> Seq<String> {
        self.options@
    }

    /// Splits a command line. The first word is the program's name; of
    /// the others, those that start with `-` or `+` are options and the
    /// rest are arguments, each kind in the order in which it stands. A
    /// command line without words has the empty name.
    pub fn from_command_line(command_line: &Vec<String>) -> (r: Self)
        ensures
            command_line@.len() == 0 ==> r.program_name()@.len() == 0 && r.args().len() == 0
                && r.options().len() == 0,
            command_line@.len() > 0 ==> r.program_name() == command_line@[0] && r.args() == select(
                command_line@.subrange(1, command_line@.len() as int),
                false,
            ) && r.options() == select(command_line@.subrange(1, command_line@.len() as int), true),
    {
        let n: usize = command_line.len();
        if n == 0 {
            return Self { program_name: String::new(), args: Vec::new(), options: Vec::new() };
        }
        let mut args: Vec<String> = Vec::new();
        let mut options: Vec<String> = Vec::new();
        let ghost rest = command_line@.subrange(1, n as int);
        let mut i: usize = 1;
        while i < n
            invariant
                1 <= i <= n,
                n == command_line@.len(),
                rest == command_line@.subrange(1, n as int),
                args@ == select(rest.take(i - 1), false),
                options@ == select(rest.take(i - 1), true),
            decreases n - i,
        {
            let word: &String = &command_line[i];
            proof {
                assert(rest.take(i as int).drop_last() =~= rest.take(i - 1));
                assert(rest.take(i as int).last() == *word);
            }
            let first_is_sign: bool = if word.as_str().unicode_len() > 0 {
                let first: char = word.as_str().get_char(0);
                first == '-' || first == '+'
            } else {
                false
            };
            if first_is_sign {
                options.push(word.clone());
            } else {
                args.push(word.clone());
            }
            i += 1;
        }
        assert(rest.take(n - 1) =~= rest);
        Self { program_name: command_line[0].clone(), args, options }
    }

    /// The program's name: the first word of the command line.
    pub fn get_program_name(&self) -> (r: &String)
        ensures
            *r == self.program_name(),
    {
        &self.program_name
    }

    /// The number of arguments, options not counted.
    pub fn len(&self) -> (r: usize)
        ensures
            r == self.args().len(),
    {
        self.args.len()
    }

    /// Tells whether `option` is among the options, written as it is
    /// here, its sign included.
    pub fn has_option(&self, option: &str) -> (r: bool)
        ensures
            r == exists|i: int| 0 <= i < self.options().len() && (#[trigger] self.options()[i])@ == option@,
    {
        let wanted: String = String::from_str(option);
        let n: usize = self.options.len();
        let mut i: usize = 0;
        while i < n
            invariant
                i <= n,
                n == self.options@.len(),
                wanted@ == option@,
                forall|j: int| 0 <= j < i ==> (#[trigger] self.options@[j])@ != option@,
            decreases n - i,
        {
            if self.options[i] == wanted {
                assert(self.options()[i as int]@ == option@);
                return true;
            }
            i += 1;
        }
        false
    }

    /// Gives the argument at `index`; the first argument is at 0.
    pub fn get(&self, index: usize) -> (r: &String)
        requires
            index < self.args().len(),
        ensures
            *r == self.args()[index as int],
    {
        &self.args[index]
    }
}

impl std::ops::Index<usize> for ArgsHelper {
    type Output = String;

    /// Gives the argument at `index`; the first argument is at 0.
    fn index(&self, index: usize) -> (r: &String)
        ensures
            *r == self.args()[index as int],
    {
        &self.args[index]
    }
}

impl vstd::std_specs::core::IndexSpecImpl<usize> for ArgsHelper {
    open spec fn index_req(&self, index: &usize) -> bool {
        *index < self.args().len()
    }
}

/// Extension trait for `Option`.
///
/// Simplifies error-handling where a `None` means that the program should
/// not continue: the value is handed on, and in its absence the message
/// with which the program is to end.
pub trait OptionUnwrapExit<T>: Sized {
    /// The value, where there is one.
    spec fn value(self) -> Option<T>;

    fn unwrap_or_exit(self, message: String) -> (r: Result<T, String>)
        ensures
            match self.value() {
                Some(value) => r == Ok::<T, String>(value),
                None => r == Err::<T, String>(message),
            },
    ;
}

impl<T> OptionUnwrapExit<T> for Option<T> {
    open spec fn value(self) -> Option<T> {
        self
    }

    fn unwrap_or_exit(self, message: String) -> (r: Result<T, String>) {
        match self {
            Some(value) => Ok(value),
            None => Err(message),
        }
    }
}

/// Extension trait for `Result`.
///
/// Simplifies error-handling where an `Err` means that the program should
/// not continue: the value is handed on, and in its absence the message
/// with which the program is to end.
pub trait ResultUnwrapExit<T>: Sized {
    /// The value, where there is one.
    spec fn value(self) -> Option<T>;

    fn unwrap_or_exit(self, message: String) -> (r: Result<T, String>)
        ensures
            match self.value() {
                Some(value) => r == Ok::<T, String>(value),
                None => r == Err::<T, String>(message),
            },
    ;
}

impl<T, E> ResultUnwrapExit<T> for Result<T, E> {
    open spec fn value(self) -> Option<T> {
        match self {
            Ok(value) => Some(value),
            Err(_) => None,
        }
    }

    fn unwrap_or_exit(self, message: String) -> (r: Result<T, String>) {
        match self {
            Ok(value) => Ok(value),
            Err(_) => Err(message),
        }
    }
}

/// Extension trait for `Option`.
///
/// Simplifies display of optional values.
pub trait OptionUnwrapDisplay<T: Display> {
    /// Whether there is a value.
    spec fn has_value(&self) -> bool;

    /// Whether `text` is what the value shows as.
    spec fn shows_as(&self, text: String) -> bool;

    /// Gives the value as it shows, or the text `None` where there is no
    /// value.
    fn unwrap_display(&self) -> (r: String)
        ensures
            self.has_value() ==> self.shows_as(r),
            !self.has_value() ==> r@ == "None"@,
    ;

    /// Gives the value as it shows, or `message` where there is no value.
    fn unwrap_display_or(&self, message: &str) -> (r: String)
        ensures
            self.has_value() ==> self.shows_as(r),
            !self.has_value() ==> r@ == message@,
    ;
}

impl<T: Display> OptionUnwrapDisplay<T> for Option<T> {
    open spec fn has_value(&self) -> bool {
        self is Some
    }

    open spec fn shows_as(&self, text: String) -> bool {
        self matches Some(value) && to_string_from_display_ensures::<T>(&value, text)
    }

    fn unwrap_display(&self) -> (r: String) {
        self.unwrap_display_or("None")
    }

    fn unwrap_display_or(&self, message: &str) -> (r: String) {
        match self {
            Some(value) => value.to_string(),
            None => String::from_str(message),
        }
    }
}

} // verus!
