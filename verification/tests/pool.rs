use blob_codec::blob::{
    create_blob_from_data, create_blob_sidecar_from_data_blocking, job_outcome, BlobError,
    BLOB_WORKERS, BLOB_WORKER_STACK_SIZE,
};
use blob_codec::layout::MAX_BLOB_DATA_SIZE;
use tokio::runtime::{Builder, Runtime};

/// Two workers with stacks of 8 MiB.
fn pool() -> Runtime {
    Builder::new_multi_thread()
        .thread_name("blob-worker")
        .worker_threads(BLOB_WORKERS)
        .max_blocking_threads(BLOB_WORKERS)
        .thread_stack_size(BLOB_WORKER_STACK_SIZE)
        .build()
        .unwrap()
}

fn payload(len: usize, salt: usize) -> Vec<u8> {
    (0..len).map(|i| (i * 13 + salt) as u8).collect()
}

#[test]
fn pool_has_two_workers_with_stacks_of_8_mib() {
    assert_eq!(BLOB_WORKERS, 2);
    assert_eq!(BLOB_WORKER_STACK_SIZE, 8 * 1024 * 1024);
}

#[test]
fn three_jobs_on_two_workers_all_complete() {
    let pool = pool();
    let inputs = [payload(10, 1), payload(MAX_BLOB_DATA_SIZE, 2), payload(70000, 3)];
    let handles: Vec<_> = inputs
        .iter()
        .cloned()
        .map(|data| pool.spawn_blocking(move || create_blob_from_data(&data)))
        .collect();
    for (handle, data) in handles.into_iter().zip(inputs.iter()) {
        let packed = pool.block_on(handle).unwrap().unwrap();
        assert_eq!(packed, create_blob_from_data(data).unwrap());
    }
}

#[test]
fn three_sidecar_jobs_on_two_workers_match_the_direct_call() {
    let pool = pool();
    let inputs = [payload(100, 4), payload(2000, 5), payload(30000, 6)];
    let handles: Vec<_> = inputs
        .iter()
        .cloned()
        .map(|data| pool.spawn_blocking(move || create_blob_sidecar_from_data_blocking(&data)))
        .collect();
    for (handle, data) in handles.into_iter().zip(inputs.iter()) {
        let sidecar = job_outcome(pool.block_on(handle)).unwrap();
        assert_eq!(sidecar, create_blob_sidecar_from_data_blocking(data).unwrap());
    }
}

#[test]
fn panicking_job_is_reported_and_the_pool_stays_usable() {
    let pool = pool();
    let handle = pool.spawn_blocking(|| -> Result<alloy::consensus::BlobTransactionSidecar, BlobError> {
        panic!("job failed")
    });
    match job_outcome(pool.block_on(handle)) {
        Err(BlobError::ThreadPanicked(e)) => assert!(e.is_panic()),
        other => panic!("expected ThreadPanicked, got {other:?}"),
    }
    // both workers still take jobs
    let data = payload(500, 7);
    let job = data.clone();
    let again = pool.spawn_blocking(move || create_blob_sidecar_from_data_blocking(&job));
    let sidecar = job_outcome(pool.block_on(again)).unwrap();
    assert_eq!(sidecar.blobs.len(), 1);
    assert!(sidecar.blobs[0].as_slice() == &create_blob_from_data(&data).unwrap()[..]);
}

#[test]
fn job_outcome_hands_on_the_job_s_own_error() {
    let pool = pool();
    let handle = pool.spawn_blocking(|| -> Result<alloy::consensus::BlobTransactionSidecar, BlobError> {
        Err(BlobError::InputTooLarge(130045))
    });
    assert!(matches!(
        job_outcome(pool.block_on(handle)),
        Err(BlobError::InputTooLarge(130045))
    ));
}
