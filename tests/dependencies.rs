use packaging_commands::deps::{dependency_file_text, dependency_list, first_token, library_names, package_name};
use packaging_commands::makepad::toolkit_package_index;
use packaging_commands::pipeline::{lister_outcome, owner_reply, PackagingError, Tool};
use packaging_commands::text::{str_eq, str_lt};

fn strings(v: &[&str]) -> Vec<String> {
    v.iter().map(|s| s.to_string()).collect()
}

fn replies(v: &[Option<&str>]) -> Vec<Option<String>> {
    v.iter().map(|o| o.map(|s| s.to_string())).collect()
}

#[test]
fn debian_scenario_writes_curl_and_owner() {
    let out = "\tlibfoo.so.1 => /lib/libfoo.so.1 (0x00007f)\n\tlinux-vdso.so.1 (0x00007ffd)\n";
    let libs = lister_outcome(true, out, String::new()).unwrap();
    assert_eq!(libs, strings(&["libfoo.so.1", "linux-vdso.so.1"]));
    let answers: Vec<Option<String>> = libs
        .iter()
        .map(|l| {
            if l == "libfoo.so.1" {
                owner_reply(true, "libfoo1: /lib/libfoo.so.1".to_string())
            } else {
                owner_reply(false, String::new())
            }
        })
        .collect();
    let list = dependency_list(&answers);
    assert_eq!(list, strings(&["curl", "libfoo1"]));
    assert_eq!(dependency_file_text(&list), "curl\nlibfoo1");
}

#[test]
fn lister_failure_is_fatal() {
    assert_eq!(
        lister_outcome(false, "whatever", "not a dynamic executable".to_string()),
        Err(PackagingError::CommandFailed { tool: Tool::Lister, stderr: "not a dynamic executable".to_string() })
    );
}

#[test]
fn library_names_take_base_names() {
    let out = "\tlinux-vdso.so.1 (0x00007ffc)\n\tlibc.so.6 => /lib/x86_64-linux-gnu/libc.so.6 (0x1)\n\t/lib64/ld-linux-x86-64.so.2 (0x2)\n";
    assert_eq!(library_names(out), strings(&["linux-vdso.so.1", "libc.so.6", "ld-linux-x86-64.so.2"]));
}

#[test]
fn library_names_skip_lines_without_a_name() {
    assert_eq!(library_names(""), Vec::<String>::new());
    assert_eq!(library_names("\n   \n\t\n"), Vec::<String>::new());
    assert_eq!(library_names("lib/.. x\n/usr/lib/libz.so.1\r\n"), strings(&["libz.so.1"]));
    assert_eq!(library_names("/\nlibm.so.6"), strings(&["libm.so.6"]));
}

#[test]
fn first_token_of_lines() {
    assert_eq!(first_token("  \tabc def"), "abc");
    assert_eq!(first_token("abc"), "abc");
    assert_eq!(first_token("   "), "");
    assert_eq!(first_token(""), "");
    assert_eq!(first_token("\u{3000}x\u{2003}y"), "x");
}

#[test]
fn package_name_before_colon() {
    assert_eq!(package_name("libc6:amd64: /lib/x86_64-linux-gnu/libc.so.6"), "libc6");
    assert_eq!(package_name("no colon here"), "no colon here");
    assert_eq!(package_name(": empty"), "");
    assert_eq!(package_name(""), "");
}

#[test]
fn dependency_list_sorted_unique_with_curl() {
    let a = replies(&[Some("zlib1g: /x"), Some("libc6:amd64: /y"), Some("zlib1g: /z"), None, Some("curl: /c")]);
    assert_eq!(dependency_list(&a), strings(&["curl", "libc6", "zlib1g"]));
    assert_eq!(dependency_list(&Vec::new()), strings(&["curl"]));
}

#[test]
fn dependency_list_ignores_order() {
    let a = replies(&[Some("b: 1"), Some("a: 2"), None, Some("c: 3")]);
    let b = replies(&[None, Some("c: 3"), Some("a: 2"), Some("b: 1")]);
    assert_eq!(dependency_list(&a), dependency_list(&b));
    assert_eq!(dependency_list(&a), dependency_list(&a));
    assert_eq!(dependency_list(&a), strings(&["a", "b", "c", "curl"]));
}

#[test]
fn unresolved_libraries_are_absent() {
    let a = replies(&[None, None, Some("libx11-6: /usr/lib/libX11.so.6"), None]);
    assert_eq!(dependency_list(&a), strings(&["curl", "libx11-6"]));
    let empty_names = replies(&[Some(":"), Some("")]);
    assert_eq!(dependency_list(&empty_names), strings(&["curl"]));
}

#[test]
fn manifest_text() {
    assert_eq!(dependency_file_text(&Vec::new()), "");
    assert_eq!(dependency_file_text(&strings(&["curl"])), "curl");
    assert_eq!(dependency_file_text(&strings(&["a", "b", "curl"])), "a\nb\ncurl");
}

#[test]
fn string_order_and_equality() {
    assert!(str_lt("curl", "libfoo1"));
    assert!(!str_lt("libfoo1", "curl"));
    assert!(str_lt("lib", "libc"));
    assert!(!str_lt("same", "same"));
    assert!(str_eq("same", "same"));
    assert!(!str_eq("same", "Same"));
}

#[test]
fn finds_toolkit_package() {
    let names = strings(&["serde", "makepad-widgets", "makepad-widgets"]);
    assert_eq!(toolkit_package_index(&names), Some(1));
    assert_eq!(toolkit_package_index(&strings(&["makepad_widgets"])), None);
    assert_eq!(toolkit_package_index(&Vec::new()), None);
}
