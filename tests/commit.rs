use blitz::commit::{
    move_image_into_dir, plan_commit, CommitRun, CommitStep, MoveFailure, PhotoMove, RawMove,
};
use blitz::{ImageInfo, Rating};

fn photo(path: &str, raw: Option<&str>, rating: Rating, name: &str) -> ImageInfo {
    ImageInfo {
        path_processed: path.to_string(),
        path_raw: raw.map(|r| r.to_string()),
        rating,
        image_name: name.to_string(),
    }
}

/// Runs a plan, answering each rename with the next outcome, and returns
/// the renames asked for and the results.
fn run(plan: Vec<PhotoMove>, outcomes: &[bool]) -> (Vec<(String, String)>, Vec<Result<(), MoveFailure>>) {
    let mut commit = CommitRun::new(plan);
    let mut renames = Vec::new();
    let mut answers = outcomes.iter();
    loop {
        match commit.next_step() {
            CommitStep::Rename { from, to } => {
                renames.push((from, to));
                commit.record(*answers.next().unwrap_or(&true));
            }
            CommitStep::Finished => break,
        }
    }
    assert!(commit.is_finished());
    (renames, commit.into_results())
}

fn culling_test_photos() -> Vec<ImageInfo> {
    vec![
        photo("tmp/1.jpg", None, Rating::Remove, "1.jpg"),
        photo("tmp/2.jpg", None, Rating::Unrated, "2.jpg"),
        photo("tmp/3.jpg", None, Rating::Approve, "3.jpg"),
    ]
}

fn check_culling_plan() {
    let test_photos = culling_test_photos();
    let chaffe_path = "tmp/chaffe";
    let wheat_path = "tmp/wheat";
    let plan = plan_commit(&test_photos, chaffe_path, wheat_path);

    // The first image goes to the chaffe folder, the third to the wheat
    // folder, and the unrated second one stays.
    assert_eq!(2, plan.len());
    assert_eq!("tmp/1.jpg", plan[0].processed.from);
    assert_eq!("tmp/chaffe/1.jpg", plan[0].processed.to);
    assert_eq!("tmp/3.jpg", plan[1].processed.from);
    assert_eq!("tmp/wheat/3.jpg", plan[1].processed.to);
    assert!(plan.iter().all(|m| m.processed.from != "tmp/2.jpg"));
    assert!(plan.iter().all(|m| m.processed.to != "tmp/wheat/2.jpg"));
    assert!(plan.iter().all(|m| m.processed.to != "tmp/chaffe/2.jpg"));

    let (renames, results) = run(plan, &[true, true]);
    assert_eq!(
        vec![
            ("tmp/1.jpg".to_string(), "tmp/chaffe/1.jpg".to_string()),
            ("tmp/3.jpg".to_string(), "tmp/wheat/3.jpg".to_string()),
        ],
        renames
    );
    assert_eq!(vec![Ok(()), Ok(())], results);
}

#[test]
fn file_operations_test_commit_culling() {
    check_culling_plan();
}

#[test]
fn lib_test_commit_culling() {
    check_culling_plan();
}

#[test]
fn raw_sibling_moves_with_its_photo() {
    let image = photo("/p/DSC1.jpg", Some("/p/DSC1.RAF"), Rating::Approve, "DSC1.jpg");
    let m = move_image_into_dir("/out/wheat", &image);
    assert_eq!("/p/DSC1.jpg", m.processed.from);
    assert_eq!("/out/wheat/DSC1.jpg", m.processed.to);
    match m.raw {
        RawMove::Planned(raw) => {
            assert_eq!("/p/DSC1.RAF", raw.from);
            assert_eq!("/out/wheat/DSC1.RAF", raw.to);
        }
        other => panic!("unexpected raw move {:?}", other),
    }
}

#[test]
fn photo_without_raw_sibling_plans_no_raw_move() {
    let image = photo("/p/DSC1.jpg", None, Rating::Remove, "DSC1.jpg");
    let m = move_image_into_dir("/out/chaffe", &image);
    assert!(matches!(m.raw, RawMove::Absent));
}

#[test]
fn raw_sibling_without_destination_is_not_moved_onto_the_photo() {
    let photos = vec![photo("/p/x", Some("/p/x.RAF"), Rating::Approve, "..")];
    let plan = plan_commit(&photos, "/out/wheat", "/out/wheat");
    match &plan[0].raw {
        RawMove::NoDestination(from) => assert_eq!("/p/x.RAF", from),
        other => panic!("unexpected raw move {:?}", other),
    }
    let (renames, results) = run(plan, &[true]);
    assert_eq!(vec![("/p/x".to_string(), "/out/wheat/..".to_string())], renames);
    assert_eq!(vec![Err(MoveFailure::Raw)], results);
}

#[test]
fn nothing_rated_moves_nothing() {
    let photos = vec![
        photo("/p/1.jpg", Some("/p/1.RAF"), Rating::Unrated, "1.jpg"),
        photo("/p/2.jpg", None, Rating::Unrated, "2.jpg"),
    ];
    let plan = plan_commit(&photos, "/p/chaffe", "/p/wheat");
    assert!(plan.is_empty());
    let (renames, results) = run(plan, &[]);
    assert!(renames.is_empty());
    assert!(results.is_empty());
}

#[test]
fn missing_raw_sibling_fails_only_the_raw_move() {
    let photos = vec![photo("/p/1.jpg", Some("/p/1.RAF"), Rating::Approve, "1.jpg")];
    let plan = plan_commit(&photos, "/p/chaffe", "/p/wheat");
    let (renames, results) = run(plan, &[true, false]);
    assert_eq!(
        vec![
            ("/p/1.jpg".to_string(), "/p/wheat/1.jpg".to_string()),
            ("/p/1.RAF".to_string(), "/p/wheat/1.RAF".to_string()),
        ],
        renames
    );
    assert_eq!(vec![Err(MoveFailure::Raw)], results);
}

#[test]
fn failed_processed_move_skips_raw_and_goes_on() {
    let photos = vec![
        photo("/p/1.jpg", Some("/p/1.RAF"), Rating::Remove, "1.jpg"),
        photo("/p/2.jpg", None, Rating::Unrated, "2.jpg"),
        photo("/p/3.jpg", Some("/p/3.RAF"), Rating::Approve, "3.jpg"),
    ];
    let plan = plan_commit(&photos, "/p/chaffe", "/p/wheat");
    let (renames, results) = run(plan, &[false, true, true]);
    assert_eq!(
        vec![
            ("/p/1.jpg".to_string(), "/p/chaffe/1.jpg".to_string()),
            ("/p/3.jpg".to_string(), "/p/wheat/3.jpg".to_string()),
            ("/p/3.RAF".to_string(), "/p/wheat/3.RAF".to_string()),
        ],
        renames
    );
    assert_eq!(vec![Err(MoveFailure::Processed), Ok(())], results);
}

#[test]
fn finished_run_ignores_further_outcomes() {
    let mut commit = CommitRun::new(Vec::new());
    assert!(commit.is_finished());
    commit.record(false);
    assert!(commit.is_finished());
    assert!(commit.into_results().is_empty());
}
