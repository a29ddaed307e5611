use worker_pool::error::PoolError;

#[test]
fn each_error_has_its_description() {
    assert_eq!(PoolError::InvalidConfiguration.describe(), "a pool needs at least one worker");
    assert_eq!(PoolError::ChannelClosed.describe(), "the channel is closed");
    assert_eq!(PoolError::LockPoisoned.describe(), "the channel lock is poisoned");
    assert_eq!(PoolError::ThreadJoinFailure.describe(), "a worker thread panicked");
}

#[test]
fn errors_compare_by_kind() {
    assert_eq!(PoolError::ChannelClosed, PoolError::ChannelClosed);
    assert_ne!(PoolError::ChannelClosed, PoolError::LockPoisoned);
    assert_ne!(PoolError::InvalidConfiguration, PoolError::ThreadJoinFailure);
}
