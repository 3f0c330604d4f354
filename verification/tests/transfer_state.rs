use lib::args::UserEnvironment;
use lib::decimal::format_decimal;
use lib::session::{
    header_kind, header_size, plan_headers, progress_due, FileInfo, FileKind, FileMeta, ReadingAction,
    ReceiveStep, SendPlan,
};

fn env_with_location(location: Option<&str>) -> UserEnvironment {
    let mut env = UserEnvironment::new();
    env.location = location.map(|l| l.to_string());
    env
}

#[test]
fn new_file_info_is_empty() {
    let fi = FileInfo::new();
    assert_eq!(fi.location, None);
    assert_eq!(fi.sign, None);
    assert_eq!(fi.size_total, 0);
    assert_eq!(fi.size_current, 0);
    assert!(fi.metadata.is_none());
    assert_eq!(fi.progress, 0);
}

#[test]
fn pass_then_clean_restores_location() {
    let mut fi = FileInfo::new();
    fi.pass_user_environment(&env_with_location(Some("/srv/in")));
    assert_eq!(fi.location, Some("/srv/in".to_string()));
    assert_eq!(fi.sign, Some("/srv/in".to_string()));
    let folder = fi.forge_target("cat.png".to_string());
    assert_eq!(folder, Some("/srv/in".to_string()));
    assert_eq!(fi.location, Some("/srv/in/cat.png".to_string()));
    fi.record_transfer(100000);
    fi.cleaning();
    assert_eq!(fi.location, Some("/srv/in".to_string()));
    assert_eq!(fi.size_current, 0);
}

#[test]
fn forge_without_location_uses_name() {
    let mut fi = FileInfo::new();
    let folder = fi.forge_target("cat.png".to_string());
    assert_eq!(folder, None);
    assert_eq!(fi.location, Some("cat.png".to_string()));
    fi.cleaning();
    assert_eq!(fi.location, None);
}

#[test]
fn forge_joins_like_pathbuf() {
    let mut fi = FileInfo::new();
    fi.pass_user_environment(&env_with_location(Some("/srv/in/")));
    fi.forge_target("a.txt".to_string());
    assert_eq!(fi.location, Some("/srv/in/a.txt".to_string()));
}

#[test]
fn metadata_kept_when_read_fails() {
    let mut fi = FileInfo::new();
    assert_eq!(fi.reading_action(), ReadingAction::NoMetadata);
    fi.record_metadata(Some(FileMeta { kind: FileKind::File, len: 5 }));
    assert_eq!(fi.reading_action(), ReadingAction::SendFile);
    fi.record_metadata(None);
    assert_eq!(fi.metadata, Some(FileMeta { kind: FileKind::File, len: 5 }));
    fi.record_metadata(Some(FileMeta { kind: FileKind::Dir, len: 0 }));
    assert_eq!(fi.reading_action(), ReadingAction::FolderUnsupported);
    fi.record_metadata(Some(FileMeta { kind: FileKind::Symlink, len: 0 }));
    assert_eq!(fi.reading_action(), ReadingAction::SymlinkUnsupported);
    fi.record_metadata(Some(FileMeta { kind: FileKind::Other, len: 0 }));
    assert_eq!(fi.reading_action(), ReadingAction::UndefinedType);
}

#[test]
fn begin_send_plans_headers() {
    let mut fi = FileInfo::new();
    fi.pass_user_environment(&env_with_location(Some("/home/u/Desktop/cat.png")));
    fi.record_metadata(Some(FileMeta { kind: FileKind::File, len: 250000 }));
    match fi.begin_send(101) {
        SendPlan::Headers { kind, size, name, iterations } => {
            assert_eq!(kind, b"101".to_vec());
            assert_eq!(size, b"250000".to_vec());
            assert_eq!(name, Some(b"cat.png".to_vec()));
            assert_eq!(iterations, 3);
        }
        SendPlan::UndefinedType => panic!("undefined"),
    }
    assert_eq!(fi.size_total, 250000);
}

#[test]
fn begin_send_without_file_name() {
    let mut fi = FileInfo::new();
    fi.pass_user_environment(&env_with_location(Some("/home/u/..")));
    fi.record_metadata(Some(FileMeta { kind: FileKind::File, len: 1 }));
    match fi.begin_send(101) {
        SendPlan::Headers { name, .. } => assert_eq!(name, None),
        SendPlan::UndefinedType => panic!("undefined"),
    }
}

#[test]
fn begin_send_undefined_type_still_sets_size() {
    let mut fi = FileInfo::new();
    fi.pass_user_environment(&env_with_location(Some("f")));
    fi.record_metadata(Some(FileMeta { kind: FileKind::File, len: 7 }));
    assert!(matches!(fi.begin_send(7), SendPlan::UndefinedType));
    assert_eq!(fi.size_total, 7);
}

#[test]
fn plan_headers_for_each_code() {
    for t in [100u8, 101, 102] {
        match plan_headers(t, 0, None) {
            SendPlan::Headers { kind, size, iterations, .. } => {
                assert_eq!(kind, t.to_string().into_bytes());
                assert_eq!(size, b"0".to_vec());
                assert_eq!(iterations, 1);
            }
            SendPlan::UndefinedType => panic!("undefined"),
        }
    }
    assert!(matches!(plan_headers(103, 0, None), SendPlan::UndefinedType));
    assert!(matches!(plan_headers(0, 0, None), SendPlan::UndefinedType));
}

#[test]
fn header_fields_read_back() {
    assert_eq!(header_kind("101"), Some(101));
    assert_eq!(header_kind("256"), None);
    assert_eq!(header_kind("abc"), None);
    assert_eq!(header_size("250000"), Some(250000));
    assert_eq!(header_size(""), None);
    let size = 9876543210u64;
    let text = String::from_utf8(format_decimal(size)).unwrap();
    assert_eq!(header_size(&text), Some(size));
}

#[test]
fn receive_steps() {
    let mut fi = FileInfo::new();
    assert_eq!(fi.receive_step(101, false), ReceiveStep::File);
    assert_eq!(fi.receive_step(100, false), ReceiveStep::Symlink);
    assert_eq!(fi.receive_step(102, false), ReceiveStep::Folder);
    assert_eq!(fi.receive_step(101, true), ReceiveStep::LocationMissing);
    assert_eq!(fi.receive_step(7, false), ReceiveStep::LocationMissing);
    fi.pass_user_environment(&env_with_location(Some("/srv")));
    assert_eq!(fi.receive_step(101, true), ReceiveStep::File);
    assert_eq!(fi.receive_step(7, false), ReceiveStep::UndefinedType);
}

#[test]
fn progress_checks() {
    assert!(progress_due(0));
    assert!(progress_due(20));
    assert!(!progress_due(21));
    let mut fi = FileInfo::new();
    assert!(!fi.record_progress(0));
    assert!(fi.record_progress(10));
    assert_eq!(fi.progress, 10);
    assert!(!fi.record_progress(10));
}

#[test]
fn transfer_counter() {
    let mut fi = FileInfo::new();
    fi.record_transfer(4);
    fi.record_transfer(100000);
    assert_eq!(fi.size_current, 100004);
}
