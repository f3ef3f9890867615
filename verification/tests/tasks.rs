use stormlight_mod::ids::StackId;
use stormlight_mod::quests::{gained_at_once, goal, ladder, rung};
use stormlight_mod::scalar::Scalar;
use stormlight_mod::tasks::{QuestError, QuestPayout, QuestSpec};

fn s(x: f32) -> Scalar {
    Scalar::from_bits(x.to_bits())
}

fn ladder_of(ts: &[f32]) -> QuestSpec {
    ladder(StackId(3), ts.iter().map(|&t| rung(s(t), Vec::new())).collect())
}

#[test]
fn a_ladder_validates_only_when_it_rises() {
    assert_eq!(ladder_of(&[1.0, 5.0, 10.0]).validate(), Ok(()));
    assert_eq!(ladder_of(&[]).validate(), Err(QuestError::NoStages));
    assert_eq!(ladder_of(&[0.0]).validate(), Err(QuestError::UnreachableThreshold { stage: 0 }));
    assert_eq!(ladder_of(&[1.0, -2.0]).validate(), Err(QuestError::UnreachableThreshold { stage: 1 }));
    assert_eq!(ladder_of(&[1.0, f32::NAN]).validate(), Err(QuestError::UnreachableThreshold { stage: 1 }));
    assert_eq!(ladder_of(&[f32::INFINITY]).validate(), Err(QuestError::UnreachableThreshold { stage: 0 }));
    assert_eq!(ladder_of(&[3.0, 3.0]).validate(), Err(QuestError::UnorderedStages { stage: 1 }));
    assert_eq!(ladder_of(&[3.0, 7.0, 5.0]).validate(), Err(QuestError::UnorderedStages { stage: 2 }));
}

#[test]
fn reaching_counts_a_prefix_of_the_rungs() {
    let q = ladder_of(&[1.0, 5.0, 10.0]);
    assert_eq!(q.rungs(), 3);
    assert_eq!(q.reached(s(0.0)), 0);
    assert_eq!(q.reached(s(1.0)), 1);
    assert_eq!(q.reached(s(7.5)), 2);
    assert_eq!(q.reached(s(10.0)), 3);
    assert_eq!(q.reached(s(f32::INFINITY)), 0, "a broken tally reaches nothing");
    assert_eq!(q.reached(s(f32::NAN)), 0);
    assert!(q.complete(s(12.0)));
    assert!(!q.complete(s(9.0)));
    assert_eq!(q.goal(), Some(s(10.0)));
    assert_eq!(q.threshold(1), Some(s(5.0)));
    assert_eq!(q.threshold(3), None);
}

#[test]
fn progress_is_capped_at_the_goal() {
    let q = ladder_of(&[2.0, 40.0]);
    assert_eq!(q.progress(s(57.0)), s(40.0));
    assert_eq!(q.progress(s(12.5)), s(12.5));
    assert_eq!(q.progress(s(-3.0)), s(0.0));
    assert_eq!(q.progress(s(f32::NAN)), s(0.0));
    assert_eq!(ladder_of(&[]).progress(s(5.0)), s(0.0));
}

#[test]
fn a_malformed_task_reads_as_no_task() {
    let q = ladder_of(&[5.0, 1.0]);
    assert!(!q.well_formed());
    assert_eq!(q.rungs(), 0);
    assert_eq!(q.goal(), None);
    assert_eq!(q.threshold(0), None);
    assert!(q.reward(0).is_empty());
    assert_eq!(q.reached(s(100.0)), 0);
    assert!(!q.complete(s(100.0)));
}

#[test]
fn single_is_the_one_rung_ladder_and_stripping_keeps_the_shape() {
    let q = QuestSpec::single(StackId(1), s(4.0), Vec::new());
    assert_eq!(q, goal(StackId(1), s(4.0), Vec::new()));
    let stripped = ladder_of(&[1.0, 2.0]).stripped();
    match stripped.payout {
        QuestPayout::Stages(stages) => {
            assert_eq!(stages.len(), 2);
            assert_eq!(stages[1].threshold, s(2.0));
            assert!(stages.iter().all(|st| st.reward.is_empty()));
        },
    }
    let _ = gained_at_once(StackId(2), s(4.0));
}

#[test]
fn quest_errors_read_as_sentences() {
    assert_eq!(QuestError::NoStages.message(), "task declares no stages");
    assert_eq!(
        QuestError::UnorderedStages { stage: 12 }.message(),
        "task stage 12 does not sit above the stage before it"
    );
    assert_eq!(
        QuestError::UnreachableThreshold { stage: 0 }.message(),
        "task stage 0 sets a threshold no count can reach"
    );
}
