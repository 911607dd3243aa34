use fat_lto::archive::{collect_members, looks_like_rust_object_file, RlibArchive};
use fat_lto::config::{CodegenContext, CrateType, Lto, SplitDebuginfo};
use fat_lto::lto::{run_fat, LinkedRlib};
use fat_lto::plan::Step;
use fat_lto::units::{FatLtoInput, ModuleCodegen, ModuleKind};

fn b(s: &str) -> Vec<u8> {
    s.as_bytes().to_vec()
}

/// Builds a GNU-style archive with the given (name, data) members.
fn ar(members: &[(&str, &[u8])]) -> Vec<u8> {
    let mut v = b"!<arch>\n".to_vec();
    for (name, data) in members {
        let gnu_name = format!("{}/", name);
        v.extend(format!("{:<16}", gnu_name).bytes());
        v.extend(format!("{:<12}", 0).bytes());
        v.extend(format!("{:<6}", 0).bytes());
        v.extend(format!("{:<6}", 0).bytes());
        v.extend(format!("{:<8}", 644).bytes());
        v.extend(format!("{:<10}", data.len()).bytes());
        v.extend(b"`\n");
        v.extend(*data);
        if data.len() % 2 == 1 {
            v.push(b'\n');
        }
    }
    v
}

#[test]
fn embedded_unit_naming_convention() {
    assert!(looks_like_rust_object_file(&b("abc.rcgu.o")));
    assert!(looks_like_rust_object_file(&b("lib-48a1.rcgu.o")));
    assert!(!looks_like_rust_object_file(&b("abc.o")));
    assert!(!looks_like_rust_object_file(&b(".rcgu.o")));
    assert!(!looks_like_rust_object_file(&b("rcgu.o")));
    assert!(!looks_like_rust_object_file(&b("abcrcgu.o")));
    assert!(!looks_like_rust_object_file(&b("")));
}

#[test]
fn archive_members_round_trip() {
    let data = ar(&[("one.rcgu.o", b"AAAA"), ("two.o", b"BB")]);
    let archive = RlibArchive::parse(data).unwrap();
    let members = collect_members(&archive).unwrap();
    assert_eq!(members.len(), 2);
    assert_eq!(members[0].0, b("one.rcgu.o"));
    assert_eq!(members[0].1, b"AAAA".to_vec());
    assert_eq!(members[1].0, b("two.o"));
    assert_eq!(members[1].1, b"BB".to_vec());
}

#[test]
fn corrupt_archive_is_rejected() {
    assert!(RlibArchive::parse(b("junk")).is_err());
}

#[test]
fn extraction_keeps_only_embedded_units() {
    // A whole-graph merge over one upstream archive: the member that follows
    // the naming convention is written into the workspace and folded; the
    // plain object member is ignored.
    let c = CodegenContext {
        lto: Lto::Fat,
        crate_types: vec![CrateType::Executable],
        dylib_lto: false,
        prefer_dynamic: false,
        save_temps: false,
        target_can_use_split_dwarf: false,
        split_debuginfo: SplitDebuginfo::Off,
    };
    let modules = vec![FatLtoInput::InMemory(ModuleCodegen {
        name: b("base"),
        kind: ModuleKind::Regular,
    })];
    let archive = ar(&[("unit.rcgu.o", b"SERIALIZED"), ("native.o", b"NATIVE")]);
    let linked = vec![LinkedRlib { exports: vec![], archive }];
    let out = run_fat(&c, modules, vec![], &vec![], &linked, b("/tmp/ws")).unwrap();

    let writes: Vec<(Vec<u8>, Vec<u8>)> = out
        .steps
        .iter()
        .filter_map(|s| match s {
            Step::WriteFile(p, d) => Some((p.clone(), d.clone())),
            _ => None,
        })
        .collect();
    assert_eq!(writes, vec![(b("/tmp/ws/unit.rcgu.o"), b("SERIALIZED"))]);

    let folds: Vec<Vec<u8>> = out
        .steps
        .iter()
        .filter_map(|s| match s {
            Step::AddDriverInput(p) => Some(p.clone()),
            _ => None,
        })
        .collect();
    assert_eq!(folds, vec![b("/tmp/ws/unit.rcgu.o")]);
    assert_eq!(out.workspace.files, vec![b("/tmp/ws/unit.rcgu.o")]);
    assert!(!out.workspace.released);
}

#[test]
fn truncated_member_bytes_fail_extraction() {
    // A member whose header claims more bytes than the archive holds: its
    // bytes cannot be read, which is a distinct extraction failure naming
    // the member.
    let mut v = b"!<arch>\n".to_vec();
    v.extend(format!("{:<16}", "bad.rcgu.o/").bytes());
    v.extend(format!("{:<12}", 0).bytes());
    v.extend(format!("{:<6}", 0).bytes());
    v.extend(format!("{:<6}", 0).bytes());
    v.extend(format!("{:<8}", 644).bytes());
    v.extend(format!("{:<10}", 100).bytes());
    v.extend(b"`\n");
    v.extend(b"shrt");
    let archive = RlibArchive::parse(v).unwrap();
    let r = collect_members(&archive);
    assert!(matches!(
        r,
        Err(fat_lto::errors::LtoError::BitcodeFromArchive { ref member }) if member == &b("bad.rcgu.o")
    ));
}
