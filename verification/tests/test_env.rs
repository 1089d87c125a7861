use conway_life::env::{ArgsHelper, OptionUnwrapDisplay, OptionUnwrapExit, ResultUnwrapExit};

#[test]
fn unwrap_exit_some() {
    let opt = Some(99);

    assert_eq!(opt.unwrap_or_exit(String::from("hello, world!")), Ok(99));
}

#[test]
fn unwrap_exit_none() {
    let opt: Option<i32> = None;

    assert_eq!(
        opt.unwrap_or_exit(String::from("hello, world!")),
        Err(String::from("hello, world!"))
    );
}

#[test]
fn unwrap_exit_ok() {
    let res: Result<i32, ()> = Ok(99);

    assert_eq!(res.unwrap_or_exit(String::from("hello, world!")), Ok(99));
}

#[test]
fn unwrap_exit_err() {
    let res: Result<i32, String> = Err(String::from("bang"));

    assert_eq!(
        res.unwrap_or_exit(String::from("hello, world!")),
        Err(String::from("hello, world!"))
    );
}

#[test]
fn unwrap_display_some() {
    let opt = Some(99);

    assert_eq!(opt.unwrap_display(), "99");
}

#[test]
fn unwrap_display_none() {
    let opt: Option<i32> = None;

    assert_eq!(opt.unwrap_display(), "None");
}

#[test]
fn unwrap_display_or_some() {
    let opt = Some(99);

    assert_eq!(opt.unwrap_display_or("hello, world!"), "99");
}

#[test]
fn unwrap_display_or_none() {
    let opt: Option<i32> = None;

    assert_eq!(opt.unwrap_display_or("hello, world!"), "hello, world!");
}

fn words(list: &[&str]) -> Vec<String> {
    list.iter().map(|w| String::from(*w)).collect()
}

#[test]
fn args_split_into_arguments_and_options() {
    let args = ArgsHelper::from_command_line(&words(&["life", "-v", "start.life", "+x", "12"]));

    assert_eq!(args.len(), 2);
    assert_eq!(args.get_program_name(), "life");
    assert_eq!(args.get(0), "start.life");
    assert_eq!(args.get(1), "12");
    assert_eq!(args[0], "start.life");
    assert_eq!(args[1], "12");
    assert!(args.has_option("-v"));
    assert!(args.has_option("+x"));
    assert!(!args.has_option("-d"));
    assert!(!args.has_option("v"));
}

#[test]
fn args_of_empty_command_line() {
    let args = ArgsHelper::from_command_line(&Vec::new());

    assert_eq!(args.len(), 0);
    assert!(!args.has_option("-v"));
}

#[test]
fn args_program_name_is_no_argument() {
    let args = ArgsHelper::from_command_line(&words(&["-life", ""]));

    assert_eq!(args.len(), 1);
    assert_eq!(args.get(0), "");
    assert!(!args.has_option("-life"));
}
