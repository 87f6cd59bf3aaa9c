use boxxy::busybox::{
    decode_shellcode, downgrade, echo, echo_message, filename_from_uri, help, parse_hex_byte,
    perms_to_str, push_decimal, since, unhexify,
};
use boxxy::completer::complete;
use boxxy::ctrl::{Interface, Transport};
use boxxy::errors::{errno, Error, ErrorKind};
use boxxy::shell::{Command, Shell};
use boxxy::toolbox::Toolbox;

#[derive(Clone)]
struct Nothing;

impl Command for Nothing {
    fn run(&self, _sh: &mut Shell<Nothing>, _args: Vec<String>) -> Result<(), Error> {
        Ok(())
    }

    fn daemonized(&self, _sh: &mut Shell<Nothing>, _args: Vec<String>) -> Result<(), Error> {
        Ok(())
    }
}

type Arguments = Vec<String>;

fn str_args(args: Vec<&str>) -> Arguments {
    args.into_iter().map(|x| x.to_owned()).collect()
}

#[test]
fn disk_test_is_comment() {
    assert_eq!("drwxrwxrwx", perms_to_str(true, 0o777));
    assert_eq!("-rwxrwxrwx", perms_to_str(false, 0o777));
    assert_eq!("drwxr-xr-x", perms_to_str(true, 0o755));
    assert_eq!("-rw-r--r--", perms_to_str(false, 0o644));
    assert_eq!("drwx------", perms_to_str(true, 0o700));
    assert_eq!("-rwxr-xr-x", perms_to_str(false, 0o4755));
    assert_eq!("----------", perms_to_str(false, 0o000));
    assert_eq!("----------", perms_to_str(false, 0o4000));
}

#[test]
fn test_permission_formatter() {
    assert_eq!("drwxrwxrwx", perms_to_str(true, 0o777));
    assert_eq!("-rwxrwxrwx", perms_to_str(false, 0o777));
    assert_eq!("drwxr-xr-x", perms_to_str(true, 0o755));
    assert_eq!("-rw-r--r--", perms_to_str(false, 0o644));
    assert_eq!("drwx------", perms_to_str(true, 0o700));
    assert_eq!("-rwxr-xr-x", perms_to_str(false, 0o4755));
    assert_eq!("----------", perms_to_str(false, 0o000));
    assert_eq!("----------", perms_to_str(false, 0o4000));
}

#[test]
fn echo_test_echo() {
    let mut sh: Shell<Nothing> = Shell::new(Toolbox::empty(), Interface::dummy());
    sh.hotswap(Interface::dummy());

    echo(&mut sh, str_args(vec!["echo", "foo"])).unwrap();
    echo(&mut sh, str_args(vec!["echo", "--", "bar", "asdf"])).unwrap();
    echo(&mut sh, str_args(vec!["echo"])).unwrap();
    echo(&mut sh, str_args(vec!["echo", "-x", "--yz"])).unwrap();
}

#[test]
fn procs_test_echo() {
    let mut sh: Shell<Nothing> = Shell::new(Toolbox::empty(), Interface::dummy());
    sh.hotswap(Interface::dummy());

    echo(&mut sh, str_args(vec!["echo", "foo"])).unwrap();
    echo(&mut sh, str_args(vec!["echo", "--", "bar", "asdf"])).unwrap();
    echo(&mut sh, str_args(vec!["echo"])).unwrap();
    echo(&mut sh, str_args(vec!["echo", "-x", "--yz"])).unwrap();
}

#[test]
fn procs_test_unhexify() {
    assert_eq!(vec![255], unhexify("\\xff").unwrap());
    assert_eq!(vec![255], unhexify("\\xFF").unwrap());
    assert_eq!(vec![255], unhexify("\"\\xff\"").unwrap());
    assert_eq!(vec![1, 2, 193, 251], unhexify("\\x01\\x02\\xc1\\xfb").unwrap());
    assert_eq!(vec![1, 2, 193, 251], unhexify("\"\\x01\\x02\\xc1\\xfb\"").unwrap());
    assert_eq!(vec![1, 2, 193, 251], unhexify("\\x01\\x02\\xc1\\xfb\"").unwrap());
}

#[test]
fn jit_test_unhexify() {
    assert_eq!(vec![255], unhexify("\\xff").unwrap());
    assert_eq!(vec![255], unhexify("\\xFF").unwrap());
    assert_eq!(vec![255], unhexify("\"\\xff\"").unwrap());
    assert_eq!(vec![1, 2, 193, 251], unhexify("\\x01\\x02\\xc1\\xfb").unwrap());
    assert_eq!(vec![1, 2, 193, 251], unhexify("\"\\x01\\x02\\xc1\\xfb\"").unwrap());
    assert_eq!(vec![1, 2, 193, 251], unhexify("\\x01\\x02\\xc1\\xfb\"").unwrap());
}

fn path_of(url: &str) -> String {
    let url: reqwest::Url = url.parse().unwrap();
    url.path().to_string()
}

#[test]
fn network_test_filename_from_uri() {
    assert_eq!(filename_from_uri(&path_of("https://example.com")), "index.html");
    assert_eq!(filename_from_uri(&path_of("https://example.com/")), "index.html");
    assert_eq!(filename_from_uri(&path_of("https://example.com/foo/")), "index.html");
    assert_eq!(filename_from_uri(&path_of("https://example.com/asdf/foo/")), "index.html");
    assert_eq!(filename_from_uri(&path_of("https://example.com/foo/?a=1")), "index.html");
    assert_eq!(filename_from_uri(&path_of("https://example.com/foo/?a=1#x")), "index.html");

    assert_eq!(filename_from_uri(&path_of("https://example.com/foo.txz")), "foo.txz");
    assert_eq!(filename_from_uri(&path_of("https://example.com/asdf/foo.txz")), "foo.txz");
    assert_eq!(filename_from_uri(&path_of("https://example.com/foo.txz?a=1")), "foo.txz");
    assert_eq!(filename_from_uri(&path_of("https://example.com/foo.txz?a=1#x")), "foo.txz");
}

#[test]
fn curl_test_filename_from_uri() {
    assert_eq!(filename_from_uri(&path_of("https://example.com")), "index.html");
    assert_eq!(filename_from_uri(&path_of("https://example.com/")), "index.html");
    assert_eq!(filename_from_uri(&path_of("https://example.com/foo/")), "index.html");
    assert_eq!(filename_from_uri(&path_of("https://example.com/asdf/foo/")), "index.html");
    assert_eq!(filename_from_uri(&path_of("https://example.com/foo/?a=1")), "index.html");
    assert_eq!(filename_from_uri(&path_of("https://example.com/foo/?a=1#x")), "index.html");

    assert_eq!(filename_from_uri(&path_of("https://example.com/foo.txz")), "foo.txz");
    assert_eq!(filename_from_uri(&path_of("https://example.com/asdf/foo.txz")), "foo.txz");
    assert_eq!(filename_from_uri(&path_of("https://example.com/foo.txz?a=1")), "foo.txz");
    assert_eq!(filename_from_uri(&path_of("https://example.com/foo.txz?a=1#x")), "foo.txz");
}

#[test]
fn filename_without_a_slash() {
    assert_eq!(filename_from_uri(""), "index.html");
    assert_eq!(filename_from_uri("foo.txz"), "index.html");
    assert_eq!(filename_from_uri("a/b"), "b");
    assert_eq!(filename_from_uri("//"), "index.html");
    assert_eq!(filename_from_uri("/\u{fc}ber/\u{e4}.txt"), "\u{e4}.txt");
}

#[test]
fn echo_prints_its_arguments() {
    let mut sh: Shell<Nothing> = Shell::new(Toolbox::empty(), Interface::dummy());
    echo(&mut sh, str_args(vec!["echo", "foo"])).unwrap();
    echo(&mut sh, str_args(vec!["echo", "--", "bar", "asdf"])).unwrap();
    echo(&mut sh, str_args(vec!["echo"])).unwrap();
    echo(&mut sh, str_args(vec![])).unwrap();
    echo(&mut sh, str_args(vec!["echo", "-x", "--yz"])).unwrap();
    echo(&mut sh, str_args(vec!["echo", "", "a b"])).unwrap();
    assert_eq!(sh.ui().written(), b"foo\n-- bar asdf\n\n\n-x --yz\n a b\n");
}

#[test]
fn echo_message_joins_with_single_spaces() {
    assert_eq!(echo_message(&str_args(vec![])), "");
    assert_eq!(echo_message(&str_args(vec!["echo"])), "");
    assert_eq!(echo_message(&str_args(vec!["echo", "a"])), "a");
    assert_eq!(echo_message(&str_args(vec!["echo", "a", "b", "c"])), "a b c");
    assert_eq!(echo_message(&str_args(vec!["x", "", ""])), " ");
}

#[test]
fn help_lists_the_commands_in_order() {
    let toolbox = Toolbox::empty().with(vec![
        ("ls".to_string(), Nothing),
        ("cat".to_string(), Nothing),
        ("a \"b\"".to_string(), Nothing),
        ("cat".to_string(), Nothing),
    ]);
    let mut sh = Shell::new(toolbox, Interface::dummy());
    help(&mut sh, str_args(vec!["help"])).unwrap();
    assert_eq!(sh.ui().written(), b"\"a \\\"b\\\"\"\n\"cat\"\n\"ls\"\n");
}

#[test]
fn help_of_an_empty_toolbox_prints_nothing() {
    let mut sh: Shell<Nothing> = Shell::new(Toolbox::empty(), Interface::dummy());
    help(&mut sh, str_args(vec!["help"])).unwrap();
    assert_eq!(sh.ui().written(), b"");
}

#[test]
fn downgrade_builtin_keeps_the_dummy() {
    let mut sh: Shell<Nothing> = Shell::new(Toolbox::empty(), Interface::dummy());
    downgrade(&mut sh, str_args(vec!["downgrade"]), Interface::dummy()).unwrap();
    assert_eq!(sh.ui().kind(), Transport::Dummy);
    assert_eq!(sh.ui().written(), b"[-] interface is already downgraded\n");
}

#[test]
fn permissions_bit_by_bit() {
    assert_eq!(perms_to_str(false, 0o400), "-r--------");
    assert_eq!(perms_to_str(false, 0o200), "--w-------");
    assert_eq!(perms_to_str(false, 0o100), "---x------");
    assert_eq!(perms_to_str(false, 0o040), "----r-----");
    assert_eq!(perms_to_str(false, 0o020), "-----w----");
    assert_eq!(perms_to_str(false, 0o010), "------x---");
    assert_eq!(perms_to_str(false, 0o004), "-------r--");
    assert_eq!(perms_to_str(false, 0o002), "--------w-");
    assert_eq!(perms_to_str(true, 0o001), "d--------x");
    assert_eq!(perms_to_str(true, 0o100644), "drw-r--r--");
    assert_eq!(perms_to_str(false, u32::MAX), "-rwxrwxrwx");
}

#[test]
fn decimal_digits() {
    for n in [0u64, 1, 9, 10, 11, 99, 100, 12345, 1_000_000, u64::MAX] {
        let mut out = String::from("n=");
        push_decimal(&mut out, n);
        assert_eq!(out, format!("n={}", n));
    }
}

#[test]
fn ages_in_the_largest_unit() {
    assert_eq!(since(Some(0)), "0 secs ago");
    assert_eq!(since(Some(1)), "1 sec ago");
    assert_eq!(since(Some(2)), "2 secs ago");
    assert_eq!(since(Some(60)), "60 secs ago");
    assert_eq!(since(Some(61)), "1 min ago");
    assert_eq!(since(Some(119)), "1 min ago");
    assert_eq!(since(Some(120)), "2 mins ago");
    assert_eq!(since(Some(3600)), "60 mins ago");
    assert_eq!(since(Some(3660)), "1 hour ago");
    assert_eq!(since(Some(24 * 3600)), "24 hours ago");
    assert_eq!(since(Some(25 * 3600)), "1 day ago");
    assert_eq!(since(Some(31 * 86400)), "31 days ago");
    assert_eq!(since(Some(32 * 86400)), "1 month ago");
    assert_eq!(since(Some(12 * 31 * 86400)), "12 months ago");
    assert_eq!(since(Some(13 * 31 * 86400)), "1 year ago");
    assert_eq!(since(Some(100 * 372 * 86400)), "100 years ago");
    assert_eq!(since(Some(u64::MAX)), "573935436383 years ago");
}

#[test]
fn time_to_come() {
    assert_eq!(since(None), "future?!");
}

#[test]
fn hex_bytes_are_what_the_standard_library_parses() {
    let interesting = "0123456789abcdefABCDEFgGxX+-_ \u{e9}";
    for high in interesting.chars() {
        for low in interesting.chars() {
            let mut text = String::new();
            text.push(high);
            text.push(low);
            assert_eq!(parse_hex_byte(high, low), u8::from_str_radix(&text, 16).ok(), "{:?}", text);
        }
    }
}

#[test]
fn unhexify_refuses_what_is_malformed() {
    assert_eq!(unhexify("").unwrap(), Vec::<u8>::new());
    assert_eq!(unhexify("\"\"").unwrap(), Vec::<u8>::new());
    assert_eq!(unhexify("x41x42").unwrap(), vec![0x41, 0x42]);
    assert_eq!(unhexify("x+f").unwrap(), vec![15]);
    assert!(unhexify("\\x4").is_err());
    assert!(unhexify("\\x414").is_err());
    assert!(unhexify("\\y41").is_err());
    assert!(unhexify("\\xg1").is_err());
    assert!(unhexify("\\x1g").is_err());
    assert!(unhexify("\\x-1").is_err());
    assert!(unhexify("\\x41 \\x42").is_err());
    assert!(unhexify("0x41").is_err());
}

#[test]
fn shellcode_in_both_encodings() {
    assert_eq!(decode_shellcode(true, "\\x90\\xcc").unwrap(), vec![0x90, 0xcc]);
    assert_eq!(decode_shellcode(false, "kMw=").unwrap(), vec![0x90, 0xcc]);
    assert!(decode_shellcode(true, "kMw=").is_err());
    assert!(decode_shellcode(false, "\\x90\\xcc").is_err());
}

#[test]
fn completion_of_the_first_word() {
    let commands = str_args(vec!["cat", "cd", "chmod", "ls", "Cat"]);
    assert_eq!(complete("c", 1, &commands), (0, str_args(vec!["cat ", "cd ", "chmod "])));
    assert_eq!(complete("ca", 2, &commands), (0, str_args(vec!["cat "])));
    assert_eq!(complete("C", 1, &commands), (0, str_args(vec!["Cat "])));
    assert_eq!(complete("cat", 3, &commands), (0, str_args(vec!["cat "])));
    assert_eq!(complete("x", 1, &commands), (0, str_args(vec![])));
    assert_eq!(
        complete("", 0, &commands),
        (0, str_args(vec!["cat ", "cd ", "chmod ", "ls ", "Cat "]))
    );
}

#[test]
fn no_completion_behind_the_first_word() {
    let commands = str_args(vec!["cat", "cd"]);
    assert_eq!(complete("cat c", 5, &commands), (0, str_args(vec![])));
    assert_eq!(complete("c ", 2, &commands), (0, str_args(vec![])));
    assert_eq!(complete(" c", 2, &commands), (0, str_args(vec![])));
}

#[test]
fn no_completion_inside_the_word() {
    let commands = str_args(vec!["cat", "cd"]);
    assert_eq!(complete("ca", 1, &commands), (0, str_args(vec![])));
    assert_eq!(complete("ca", 0, &commands), (0, str_args(vec![])));
    assert_eq!(complete("ca", 3, &commands), (0, str_args(vec![])));
    // the cursor counts bytes
    let names = str_args(vec!["\u{e4}h"]);
    assert_eq!(complete("\u{e4}", 2, &names), (0, str_args(vec!["\u{e4}h "])));
    assert_eq!(complete("\u{e4}", 1, &names), (0, str_args(vec![])));
}

#[test]
fn errno_error_keeps_number_and_words() {
    let e = Error::of_errno(13, "Permission denied".to_string());
    assert_eq!(e.kind, ErrorKind::Errno(13));
    assert_eq!(e.render(), "error: Permission denied");
}

#[test]
fn errno_is_an_errno_error() {
    let e = errno();
    assert!(matches!(e.kind, ErrorKind::Errno(_)));
    assert!(!e.is_usage());
    assert!(e.render().starts_with("error: "));
}

#[test]
fn hexify_shows_bytes_in_capitals() {
    assert_eq!(boxxy::plans::hexify(&[]), "");
    assert_eq!(boxxy::plans::hexify(&[0x00, 0x0a, 0x41, 0xc1, 0xff]), "\\x00\\x0A\\x41\\xC1\\xFF");
}

#[test]
fn hexify_is_read_back_by_unhexify() {
    let all: Vec<u8> = (0..=255u8).collect();
    assert_eq!(unhexify(&boxxy::plans::hexify(&all)).unwrap(), all);
}

#[test]
fn strings_sort_as_in_the_standard_library() {
    let names = str_args(vec![
        "ls", "cat", "", "cd", "Cat", "c", "\u{e4}", "z", "cat ", "ca", "\u{10348}", "\u{ffff}", "~",
    ]);
    let mut expected = names.clone();
    expected.sort_unstable();
    assert_eq!(boxxy::text::sort_strings(names), expected);
    let twice = str_args(vec!["b", "a", "b", "a"]);
    assert_eq!(boxxy::text::sort_strings(twice), str_args(vec!["a", "a", "b", "b"]));
}

#[test]
fn grep_prints_the_lines_that_match() {
    let pattern = boxxy::pattern::Pattern::new("b.r").unwrap();
    let mut sh: Shell<Nothing> = Shell::new(Toolbox::empty(), Interface::dummy());
    for line in ["foo", "a bar", "b\"r\ttab", "br"] {
        boxxy::pattern::grep_line(&mut sh, &pattern, line).unwrap();
    }
    assert_eq!(sh.ui().written(), b"\"a bar\"\n\"b\\\"r\\ttab\"\n");
}
