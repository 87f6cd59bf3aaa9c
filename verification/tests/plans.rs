use boxxy::plans::{
    cap_action, cap_set, check, download_name, exec_plan, ls_paths, mount_args, push_number_list,
    tar_plan, CapAction, CapActionFlags, CapSet, CapSetFlags, Identity, TarError, TarPlan,
};

fn strings(items: &[&str]) -> Vec<String> {
    items.iter().map(|x| x.to_string()).collect()
}

#[test]
fn mount_with_one_argument_has_no_source() {
    assert_eq!(mount_args("/mnt".to_string(), None), (None, "/mnt".to_string()));
    assert_eq!(
        mount_args("/dev/sda1".to_string(), Some("/mnt".to_string())),
        (Some("/dev/sda1".to_string()), "/mnt".to_string())
    );
}

#[test]
fn tar_extracts_into_one_place() {
    assert_eq!(tar_plan(true, false, strings(&[])), Ok(TarPlan::Extract(".".to_string())));
    assert_eq!(tar_plan(true, false, strings(&["out"])), Ok(TarPlan::Extract("out".to_string())));
    assert_eq!(tar_plan(true, false, strings(&["a", "b"])), Err(TarError::TooManyPaths));
    assert_eq!(tar_plan(true, true, strings(&["a"])), Ok(TarPlan::Extract("a".to_string())));
}

#[test]
fn tar_needs_paths_to_pack() {
    assert_eq!(tar_plan(false, true, strings(&[])), Err(TarError::PathsRequired));
    assert_eq!(
        tar_plan(false, true, strings(&["a", "b"])),
        Ok(TarPlan::Create(strings(&["a", "b"])))
    );
    assert_eq!(tar_plan(false, false, strings(&["a"])), Ok(TarPlan::Nothing));
    assert_eq!(TarError::TooManyPaths.message(), "too many paths");
    assert_eq!(TarError::PathsRequired.message(), "paths is required with create");
}

#[test]
fn download_goes_where_it_was_asked_to() {
    assert_eq!(download_name(Some("x".to_string()), true, "/a/b.txt"), Some("x".to_string()));
    assert_eq!(download_name(Some("x".to_string()), false, "/a/b.txt"), Some("x".to_string()));
    assert_eq!(download_name(None, true, "/a/b.txt"), Some("b.txt".to_string()));
    assert_eq!(download_name(None, true, "/a/"), Some("index.html".to_string()));
    assert_eq!(download_name(None, false, "/a/b.txt"), None);
}

#[test]
fn exec_needs_a_program() {
    assert_eq!(exec_plan(strings(&[])), None);
    assert_eq!(exec_plan(strings(&["exec"])), None);
    assert_eq!(exec_plan(strings(&["exec", "sh"])), Some(("sh".to_string(), strings(&[]))));
    assert_eq!(
        exec_plan(strings(&["exec", "sh", "-c", "id"])),
        Some(("sh".to_string(), strings(&["-c", "id"])))
    );
}

#[test]
fn ls_lists_the_working_directory_by_default() {
    assert_eq!(ls_paths(strings(&[])), strings(&["."]));
    assert_eq!(ls_paths(strings(&["/", "/tmp"])), strings(&["/", "/tmp"]));
}

#[test]
fn first_capability_set_wins() {
    let none = CapSetFlags { effective: false, bounding: false, inheritable: false, ambient: false };
    assert_eq!(cap_set(none), CapSet::Permitted);
    assert_eq!(cap_set(CapSetFlags { ambient: true, ..none }), CapSet::Ambient);
    assert_eq!(cap_set(CapSetFlags { inheritable: true, ambient: true, ..none }), CapSet::Inheritable);
    assert_eq!(cap_set(CapSetFlags { bounding: true, ambient: true, ..none }), CapSet::Bounding);
    let all = CapSetFlags { effective: true, bounding: true, inheritable: true, ambient: true };
    assert_eq!(cap_set(all), CapSet::Effective);
}

#[test]
fn first_capability_action_wins() {
    let none = CapActionFlags { clear: false, drop: false, raise: false, set: false };
    assert_eq!(cap_action(none), CapAction::Read);
    assert_eq!(cap_action(CapActionFlags { set: true, ..none }), CapAction::Assign);
    assert_eq!(cap_action(CapActionFlags { raise: true, set: true, ..none }), CapAction::Raise);
    assert_eq!(cap_action(CapActionFlags { drop: true, raise: true, ..none }), CapAction::Drop);
    let all = CapActionFlags { clear: true, drop: true, raise: true, set: true };
    assert_eq!(cap_action(all), CapAction::Clear);
}

#[test]
fn id_line_on_linux_and_elsewhere() {
    let id = Identity {
        ruid: 1000,
        euid: 0,
        suid: Some(1000),
        rgid: 100,
        egid: 100,
        sgid: Some(0),
        groups: vec![4, 24, 100],
    };
    assert_eq!(id.format(), "uid=1000 euid=0 suid=1000 gid=100 egid=100 sgid=0 groups=[4, 24, 100]");
    let id = Identity { suid: None, sgid: None, groups: vec![], ..id };
    assert_eq!(id.format(), "uid=1000 euid=0 gid=100 egid=100 groups=[]");
}

#[test]
fn number_lists_look_like_debug_output() {
    for list in [vec![], vec![0u32], vec![1, 2], vec![u32::MAX, 0, 7]] {
        let mut out = String::new();
        push_number_list(&mut out, &list);
        assert_eq!(out, format!("{:?}", list));
    }
}

#[test]
fn check_fails_on_anything_but_zero() {
    assert!(check(0).is_ok());
    assert!(check(-1).is_err());
    assert!(check(1).is_err());
}

#[test]
fn pattern_matches_anywhere_in_the_line() {
    let pattern = boxxy::pattern::Pattern::new("ro+t").unwrap();
    assert!(pattern.is_match("root:x:0:0"));
    assert!(pattern.is_match("the rooot"));
    assert!(!pattern.is_match("rt"));
    assert!(!pattern.is_match("ro+t"));
    assert!(!pattern.is_match(""));
    let anchored = boxxy::pattern::Pattern::new("^a.c$").unwrap();
    assert!(anchored.is_match("abc"));
    assert!(!anchored.is_match("xabc"));
}

#[test]
fn pattern_that_does_not_compile_is_an_error() {
    let err = boxxy::pattern::Pattern::new("foo(bar").err().unwrap();
    assert!(err.render().starts_with("error: "));
    assert!(boxxy::pattern::Pattern::new("\\w{1000}").is_err());
    assert!(boxxy::pattern::Pattern::new("").is_ok());
}
