use modsync::digest::sha256_hex;
use modsync::entry::ModEntry;
use modsync::resolve::{Action, Event, ModManager, Outcome, Stage, Step};

const HELLO_DIGEST: &str = "2cf24dba5fb0a30e26e83b2ac5b9e29e1b161e5c1fa7425e73043362938b9824";

fn entry(category: &str, filename: &str, url: &str, sha256: Option<&str>) -> ModEntry {
    ModEntry {
        filename: filename.to_string(),
        url: url.to_string(),
        sha256: sha256.map(|d| d.to_string()),
        category: category.to_string(),
    }
}

fn stages() -> [Stage; 6] {
    [Stage::Probe, Stage::Delete, Stage::Verify, Stage::Fetch, Stage::Write, Stage::Confirm]
}

fn events() -> Vec<Event> {
    vec![
        Event::Present,
        Event::Absent,
        Event::Deleted,
        Event::DeleteFailed("denied".to_string()),
        Event::Content(b"hello".to_vec()),
        Event::ReadFailed,
        Event::Fetched(b"hello".to_vec()),
        Event::RequestFailed,
        Event::BodyFailed,
        Event::Written,
        Event::WriteFailed,
    ]
}

fn failed(message: &str) -> Option<Step> {
    Some(Step::Done(Outcome::Failed(message.to_string())))
}

#[test]
fn removal_of_a_file_that_is_absent_changes_nothing() {
    let e = entry("REMOVE", "old.jar", "", Some(""));
    assert_eq!(
        ModManager::handle_entry(&e, Stage::Probe, Event::Absent),
        Some(Step::Done(Outcome::Unchanged))
    );
}

#[test]
fn removal_of_a_file_that_is_present_deletes_it() {
    let e = entry("remove", "old.jar", "http://ignored", None);
    assert_eq!(
        ModManager::handle_entry(&e, Stage::Probe, Event::Present),
        Some(Step::Next(Action::Delete))
    );
    assert_eq!(
        ModManager::handle_entry(&e, Stage::Delete, Event::Deleted),
        Some(Step::Done(Outcome::Removed))
    );
}

#[test]
fn a_failed_deletion_is_reported_with_the_message_of_the_system() {
    let e = entry("REMOVE", "old.jar", "", None);
    assert_eq!(
        ModManager::handle_entry(&e, Stage::Delete, Event::DeleteFailed("Permission denied (os error 13)".to_string())),
        failed("Permission denied (os error 13)")
    );
}

#[test]
fn a_present_file_without_expected_digest_is_accepted_unread() {
    for category in ["REQUIRED", "Optional", "", "Shaders"] {
        let e = entry(category, "a.jar", "http://x/a.jar", None);
        assert_eq!(
            ModManager::handle_entry(&e, Stage::Probe, Event::Present),
            Some(Step::Done(Outcome::Unchanged))
        );
    }
}

#[test]
fn a_present_file_with_expected_digest_is_read_and_compared() {
    let e = entry("REQUIRED", "a.jar", "http://x/a.jar", Some(HELLO_DIGEST));
    assert_eq!(
        ModManager::handle_entry(&e, Stage::Probe, Event::Present),
        Some(Step::Next(Action::Verify))
    );
    assert_eq!(
        ModManager::handle_entry(&e, Stage::Verify, Event::Content(b"hello".to_vec())),
        Some(Step::Done(Outcome::Unchanged))
    );
}

#[test]
fn the_expected_digest_may_be_written_in_capitals() {
    let upper = HELLO_DIGEST.to_uppercase();
    let e = entry("REQUIRED", "a.jar", "http://x/a.jar", Some(&upper));
    assert_eq!(
        ModManager::handle_entry(&e, Stage::Verify, Event::Content(b"hello".to_vec())),
        Some(Step::Done(Outcome::Unchanged))
    );
    assert_eq!(
        ModManager::handle_entry(&e, Stage::Confirm, Event::Content(b"hello".to_vec())),
        Some(Step::Done(Outcome::Downloaded))
    );
}

#[test]
fn a_present_file_with_another_digest_fails_and_is_not_fetched() {
    let e = entry("REQUIRED", "a.jar", "http://x/a.jar", Some(HELLO_DIGEST));
    let step = ModManager::handle_entry(&e, Stage::Verify, Event::Content(b"other".to_vec()));
    assert_eq!(
        step,
        failed(&format!(
            "digest mismatch: expected {}, got {}",
            HELLO_DIGEST,
            sha256_hex(b"other")
        ))
    );
    assert_eq!(
        step,
        failed(
            "digest mismatch: expected 2cf24dba5fb0a30e26e83b2ac5b9e29e1b161e5c1fa7425e73043362938b9824, got d9298a10d1b0735837dc4bd85dac641b0f3cef27a47e5d53a54f2f3f5b2fcffa"
        )
    );
}

#[test]
fn an_absent_file_is_fetched_and_written() {
    let e = entry("Optional", "a.jar", "http://x/a.jar", None);
    assert_eq!(
        ModManager::handle_entry(&e, Stage::Probe, Event::Absent),
        Some(Step::Next(Action::Fetch))
    );
    assert_eq!(
        ModManager::handle_entry(&e, Stage::Fetch, Event::Fetched(vec![1, 2, 3])),
        Some(Step::Next(Action::Write(vec![1, 2, 3])))
    );
    assert_eq!(
        ModManager::handle_entry(&e, Stage::Write, Event::Written),
        Some(Step::Done(Outcome::Downloaded))
    );
}

#[test]
fn a_written_file_with_expected_digest_is_read_back() {
    let e = entry("REQUIRED", "a.jar", "http://x/a.jar", Some(HELLO_DIGEST));
    assert_eq!(
        ModManager::handle_entry(&e, Stage::Write, Event::Written),
        Some(Step::Next(Action::Confirm))
    );
    assert_eq!(
        ModManager::handle_entry(&e, Stage::Confirm, Event::Content(b"hello".to_vec())),
        Some(Step::Done(Outcome::Downloaded))
    );
    assert_eq!(
        ModManager::handle_entry(&e, Stage::Confirm, Event::Content(b"hellp".to_vec())),
        failed(&format!(
            "digest mismatch: expected {}, got {}",
            HELLO_DIGEST,
            sha256_hex(b"hellp")
        ))
    );
}

#[test]
fn each_failure_has_its_message() {
    let e = entry("REQUIRED", "a.jar", "http://x/a.jar", Some(HELLO_DIGEST));
    assert_eq!(
        ModManager::handle_entry(&e, Stage::Fetch, Event::RequestFailed),
        failed("Failed to download a.jar")
    );
    assert_eq!(
        ModManager::handle_entry(&e, Stage::Fetch, Event::BodyFailed),
        failed("Failed to read response for a.jar")
    );
    assert_eq!(
        ModManager::handle_entry(&e, Stage::Write, Event::WriteFailed),
        failed("Failed to write a.jar")
    );
    assert_eq!(
        ModManager::handle_entry(&e, Stage::Verify, Event::ReadFailed),
        failed("Failed to read file for hashing")
    );
    assert_eq!(
        ModManager::handle_entry(&e, Stage::Confirm, Event::ReadFailed),
        failed("Failed to read file for hashing")
    );
}

/// Whether an entry can be in a stage, and whether an event reports the
/// operation of a stage, written out as tables.
fn decided(e: &ModEntry, stage: Stage, event: &Event) -> bool {
    let reachable = match stage {
        Stage::Probe => true,
        Stage::Delete => e.is_remove(),
        Stage::Fetch | Stage::Write => !e.is_remove(),
        Stage::Verify | Stage::Confirm => !e.is_remove() && e.sha256.is_some(),
    };
    let answers = match stage {
        Stage::Probe => matches!(event, Event::Present | Event::Absent),
        Stage::Delete => matches!(event, Event::Deleted | Event::DeleteFailed(_)),
        Stage::Verify | Stage::Confirm => matches!(event, Event::Content(_) | Event::ReadFailed),
        Stage::Fetch => matches!(event, Event::Fetched(_) | Event::RequestFailed | Event::BodyFailed),
        Stage::Write => matches!(event, Event::Written | Event::WriteFailed),
    };
    reachable && answers
}

fn clone_event(event: &Event) -> Event {
    match event {
        Event::Present => Event::Present,
        Event::Absent => Event::Absent,
        Event::Deleted => Event::Deleted,
        Event::DeleteFailed(m) => Event::DeleteFailed(m.clone()),
        Event::Content(b) => Event::Content(b.clone()),
        Event::ReadFailed => Event::ReadFailed,
        Event::Fetched(b) => Event::Fetched(b.clone()),
        Event::RequestFailed => Event::RequestFailed,
        Event::BodyFailed => Event::BodyFailed,
        Event::Written => Event::Written,
        Event::WriteFailed => Event::WriteFailed,
    }
}

#[test]
fn a_decision_is_taken_exactly_for_the_reports_that_a_stage_waits_for() {
    let entries = [
        entry("REMOVE", "a", "u", None),
        entry("remove", "a", "u", Some(HELLO_DIGEST)),
        entry("REQUIRED", "a", "u", None),
        entry("Optional", "a", "u", Some(HELLO_DIGEST)),
    ];
    let mut some = 0;
    for e in &entries {
        for stage in stages() {
            for event in events() {
                let step = ModManager::handle_entry(e, stage, clone_event(&event));
                assert_eq!(step.is_some(), decided(e, stage, &event), "{:?} {:?} {:?}", e, stage, event);
                if let Some(Step::Next(action)) = &step {
                    assert!(decided(e, action.stage(), &first_report(action.stage())));
                }
                if step.is_some() {
                    some += 1;
                }
            }
        }
    }
    assert_eq!(some, 4 + 4 + 7 + 11);
}

fn first_report(stage: Stage) -> Event {
    match stage {
        Stage::Probe => Event::Present,
        Stage::Delete => Event::Deleted,
        Stage::Verify | Stage::Confirm => Event::ReadFailed,
        Stage::Fetch => Event::RequestFailed,
        Stage::Write => Event::Written,
    }
}

#[test]
fn the_parts_of_the_decision_agree_with_the_whole() {
    let entries = [
        entry("REQUIRED", "a", "u", None),
        entry("Optional", "a", "u", Some(HELLO_DIGEST)),
    ];
    for e in &entries {
        for stage in stages() {
            for event in events() {
                let whole = ModManager::handle_entry(e, stage, clone_event(&event));
                let present = ModManager::check_and_download(e, stage, clone_event(&event));
                assert_eq!(whole, present);
                let download = ModManager::download_mod(e, stage, clone_event(&event));
                if matches!(stage, Stage::Fetch | Stage::Write | Stage::Confirm) {
                    assert_eq!(download, whole);
                } else {
                    assert_eq!(download, None);
                }
            }
        }
    }
}

#[test]
fn the_category_decides_between_removal_and_presence_only() {
    // Asked to be present, an entry is treated alike whatever its category.
    let a = entry("REQUIRED", "a", "u", Some(HELLO_DIGEST));
    let b = entry("Shaders", "a", "u", Some(HELLO_DIGEST));
    for stage in stages() {
        for event in events() {
            assert_eq!(
                ModManager::handle_entry(&a, stage, clone_event(&event)),
                ModManager::handle_entry(&b, stage, clone_event(&event))
            );
        }
    }
    // check_and_download does not look at the category at all.
    let r = entry("REMOVE", "a", "u", None);
    assert_eq!(
        ModManager::check_and_download(&r, Stage::Probe, Event::Absent),
        Some(Step::Next(Action::Fetch))
    );
}

#[test]
fn an_action_waits_in_the_stage_of_its_name() {
    assert_eq!(Action::Probe.stage(), Stage::Probe);
    assert_eq!(Action::Delete.stage(), Stage::Delete);
    assert_eq!(Action::Verify.stage(), Stage::Verify);
    assert_eq!(Action::Fetch.stage(), Stage::Fetch);
    assert_eq!(Action::Write(vec![7]).stage(), Stage::Write);
    assert_eq!(Action::Confirm.stage(), Stage::Confirm);
}

#[test]
fn a_copy_of_an_outcome_is_equal_to_it() {
    for o in [
        Outcome::Downloaded,
        Outcome::Unchanged,
        Outcome::Removed,
        Outcome::Failed("why".to_string()),
    ] {
        assert_eq!(o.clone(), o);
    }
}
