use blob_codec::cli::{Cmd, Fork, SendCmdOptions, SpamCmdOptions};

#[test]
fn send_options_default_to_no_nonce_delta() {
    assert_eq!(SendCmdOptions::default().nonce_delta, 0);
}

#[test]
fn spam_options_default_to_no_pause() {
    assert_eq!(SpamCmdOptions::default().interval_secs, 0);
}

#[test]
fn zero_delta_leaves_the_nonce_to_the_provider() {
    let opts = SendCmdOptions { nonce_delta: 0 };
    assert_eq!(opts.nonce(0), None);
    assert_eq!(opts.nonce(41), None);
    assert_eq!(opts.nonce(u64::MAX), None);
}

#[test]
fn positive_delta_is_added_to_the_pending_nonce() {
    let opts = SendCmdOptions { nonce_delta: 3 };
    assert_eq!(opts.nonce(0), Some(3));
    assert_eq!(opts.nonce(41), Some(44));
    assert_eq!(opts.nonce(u64::MAX - 3), Some(u64::MAX));
}

#[test]
fn nonce_that_does_not_fit_is_not_set() {
    let opts = SendCmdOptions { nonce_delta: 3 };
    assert_eq!(opts.nonce(u64::MAX - 2), None);
    assert_eq!(opts.nonce(u64::MAX), None);
}

#[test]
fn commands_carry_their_options() {
    let send = Cmd::Send(SendCmdOptions { nonce_delta: 2 });
    let spam = Cmd::Spam(SpamCmdOptions { interval_secs: 24 });
    assert!(matches!(send, Cmd::Send(o) if o.nonce_delta == 2));
    assert!(matches!(spam, Cmd::Spam(o) if o.interval_secs == 24));
    assert!(matches!(Cmd::ReadQueue, Cmd::ReadQueue));
    assert!(matches!(Cmd::MonitorQueue, Cmd::MonitorQueue));
    assert!(matches!(Fork::Pacaya.clone(), Fork::Pacaya));
    assert!(matches!(Fork::Shasta, Fork::Shasta));
}
