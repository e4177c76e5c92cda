use sendit::util::{packed, run, run_output};

#[test]
fn commands_fail_with_their_status() {
    assert_eq!(run("tar", true, "exit status: 0"), Ok(()));
    assert_eq!(
        run("tar", false, "exit status: 2").unwrap_err(),
        "tar failed with exit status: 2"
    );
}

#[test]
fn commands_fail_with_what_they_say() {
    assert_eq!(
        run_output("curl", true, b"out".to_vec(), b"err").unwrap(),
        b"out"
    );
    assert_eq!(
        run_output("curl", false, b"out".to_vec(), b" curl: (6) \xff\n").unwrap_err(),
        "curl failed: curl: (6) \u{fffd}"
    );
    assert_eq!(packed(true, b"x"), Ok(()));
    assert_eq!(
        packed(false, b"no space\n").unwrap_err(),
        "creating the seed ISO failed: no space"
    );
}
