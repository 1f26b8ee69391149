use open_wake::safe_name;

#[test]
fn safe_name_cannot_escape_state_directory() {
    assert_eq!(safe_name("../../thread/one"), ".._2F.._2Fthread_2Fone");
    assert_ne!(safe_name("thread/one"), safe_name("thread_2Fone"));
}
