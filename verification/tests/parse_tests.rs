use slurm_jobs::slurm_manager::SlurmInteractionError;
use slurm_jobs::slurm_manager::SlurmManager;

#[test]
fn sbatch_response_last_token() {
    assert_eq!(
        SlurmManager::parse_sbatch_response("Submitted batch job 12345\n").unwrap(),
        12345
    );
    assert_eq!(SlurmManager::parse_sbatch_response("  987  ").unwrap(), 987);
    assert_eq!(SlurmManager::parse_sbatch_response("0").unwrap(), 0);
}

#[test]
fn sbatch_response_rejects_non_numeric_tail() {
    let r = SlurmManager::parse_sbatch_response("sbatch: error: invalid partition\n");
    match r {
        Err(SlurmInteractionError::BadSbatchResponse(raw)) => {
            assert_eq!(raw, "sbatch: error: invalid partition");
        }
        _ => panic!("a response without a trailing number must be rejected"),
    }
    // a value too large for the identifier type is rejected, not truncated
    assert!(SlurmManager::parse_sbatch_response("Submitted batch job 99999999999").is_err());
    assert!(SlurmManager::parse_sbatch_response("").is_err());
}

#[test]
fn squeue_row_parses_eight_fields() {
    let (id, partition, name, user, state, time, nodes, nodelist) =
        SlurmManager::parse_squeue_row("123 main sleep me R 0:01 1 node01").unwrap();
    assert_eq!(id, 123);
    assert_eq!(partition, "main");
    assert_eq!(name, "sleep");
    assert_eq!(user, "me");
    assert_eq!(state, "R");
    assert_eq!(time, "0:01");
    assert_eq!(nodes, 1);
    assert_eq!(nodelist, "node01");
}

#[test]
fn squeue_row_rejects_wrong_shape() {
    let r = SlurmManager::parse_squeue_row("123 too few");
    match r {
        Err(SlurmInteractionError::MalformedSqueueRow(raw)) => {
            assert_eq!(raw, "123 too few");
        }
        _ => panic!("a short row must be rejected"),
    }
    // a non-numeric identifier is as malformed as a short row
    assert!(SlurmManager::parse_squeue_row("abc main sleep me R 0:01 1 node01").is_err());
    assert!(SlurmManager::parse_squeue_row("123 main sleep me R 0:01 x node01").is_err());
}

#[test]
fn squeue_output_collects_identifiers() {
    let out = "JOBID PARTITION NAME USER ST TIME NODES NODELIST\n\
               123 main sleep me R 0:01 1 node01\n\
               456 main sleep me R 0:02 1 node02\n";
    assert_eq!(SlurmManager::parse_squeue_output(out).unwrap(), vec![123, 456]);
    // a header alone means nothing is running
    assert_eq!(
        SlurmManager::parse_squeue_output("JOBID PARTITION NAME USER ST TIME NODES NODELIST\n")
            .unwrap(),
        Vec::<i32>::new()
    );
}

#[test]
fn squeue_output_surfaces_malformed_rows() {
    let out = "JOBID PARTITION NAME USER ST TIME NODES NODELIST\n\
               123 main sleep me R 0:01 1 node01\n\
               this row is broken\n";
    match SlurmManager::parse_squeue_output(out) {
        Err(SlurmInteractionError::MalformedSqueueRow(raw)) => {
            assert_eq!(raw, "this row is broken");
        }
        _ => panic!("a malformed row must surface as a recoverable error"),
    }
}
