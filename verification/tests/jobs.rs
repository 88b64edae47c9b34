use matrix_engine::jobs::assemble_replies;
use matrix_engine::jobs::compute_job;
use matrix_engine::jobs::plan_jobs;
use matrix_engine::jobs::worker_for_job;
use matrix_engine::jobs::MsgInput;
use matrix_engine::jobs::MsgOutput;
use matrix_engine::Matrix;
use matrix_engine::MatrixError;
use matrix_engine::Vector;

#[test]
fn planner_emits_one_job_per_cell_in_row_major_order() {
    let a = Matrix::new(3, 2, vec![1, 2, 3, 4, 5, 6]).unwrap();
    let b = Matrix::new(2, 4, vec![1, 2, 3, 4, 5, 6, 7, 8]).unwrap();
    let jobs = plan_jobs(&a, &b);
    assert_eq!(jobs.len(), 12);
    for (k, job) in jobs.iter().enumerate() {
        assert_eq!(job.idx, k);
        assert_eq!(job.row.data.len(), 2);
        assert_eq!(job.col.data.len(), 2);
    }
    assert_eq!(jobs[0].row.data, vec![1, 2]);
    assert_eq!(jobs[0].col.data, vec![1, 5]);
    assert_eq!(jobs[11].row.data, vec![5, 6]);
    assert_eq!(jobs[11].col.data, vec![4, 8]);
}

#[test]
fn round_robin_assignment_is_index_modulo_workers() {
    assert_eq!(worker_for_job(0, 4), 0);
    assert_eq!(worker_for_job(7, 4), 3);
    assert_eq!(worker_for_job(8, 4), 0);
    assert_eq!(worker_for_job(5, 1), 0);
    assert_eq!(worker_for_job(5, 16), 5);
}

#[test]
fn compute_job_returns_reply_for_its_own_index() {
    let job = MsgInput::new(5, Vector::new(vec![1, 2]), Vector::new(vec![3, 4]));
    let reply = compute_job(job).unwrap();
    assert_eq!(reply.idx, 5);
    assert_eq!(reply.value, 11);
}

#[test]
fn compute_job_reports_mismatched_lengths() {
    let job = MsgInput::new(0, Vector::new(vec![1, 2, 3]), Vector::new(vec![3, 4]));
    assert_eq!(compute_job(job).unwrap_err(), MatrixError::DimensionMismatch);
}

#[test]
fn assembly_writes_by_index_whatever_the_arrival_order() {
    let replies = vec![
        MsgOutput::new(3, 33),
        MsgOutput::new(0, 10),
        MsgOutput::new(2, 22),
        MsgOutput::new(1, 11),
    ];
    let m = assemble_replies(2, 2, replies).unwrap();
    assert_eq!(m.rows, 2);
    assert_eq!(m.cols, 2);
    assert_eq!(m.data, vec![10, 11, 22, 33]);
}

#[test]
fn assembly_rejects_duplicate_destination() {
    let replies = vec![
        MsgOutput::new(0, 1),
        MsgOutput::new(1, 2),
        MsgOutput::new(1, 3),
        MsgOutput::new(2, 4),
    ];
    assert_eq!(assemble_replies(2, 2, replies).unwrap_err(), MatrixError::JobLost);
}

#[test]
fn assembly_rejects_missing_reply() {
    let replies = vec![MsgOutput::new(0, 1), MsgOutput::new(2, 3)];
    assert_eq!(assemble_replies(2, 2, replies).unwrap_err(), MatrixError::JobLost);
}

#[test]
fn assembly_rejects_out_of_range_destination() {
    let replies = vec![MsgOutput::new(0, 1), MsgOutput::new(4, 2)];
    assert_eq!(assemble_replies(2, 2, replies).unwrap_err(), MatrixError::JobLost);
}

#[test]
fn result_is_independent_of_pool_size() {
    let a = Matrix::new(3, 2, vec![1, 2, 3, 4, 5, 6]).unwrap();
    let b = Matrix::new(2, 4, vec![1, 2, 3, 4, 5, 6, 7, 8]).unwrap();
    let reference = matrix_engine::multiply_matrix(&a, &b).unwrap();
    for workers in 1..=16 {
        let jobs = plan_jobs(&a, &b);
        let mut queues: Vec<Vec<MsgInput>> = (0..workers).map(|_| Vec::new()).collect();
        for job in jobs {
            queues[worker_for_job(job.idx, workers)].push(job);
        }
        let mut replies = Vec::new();
        for queue in queues {
            for job in queue {
                replies.push(compute_job(job).unwrap());
            }
        }
        let m = assemble_replies(3, 4, replies).unwrap();
        assert_eq!(m.data, reference.data);
        assert_eq!(m.rows, reference.rows);
        assert_eq!(m.cols, reference.cols);
    }
}
