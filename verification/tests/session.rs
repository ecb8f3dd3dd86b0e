use firmware_extractor::detect::FirmwareKind;
use firmware_extractor::error::{ErrorKind, ExtractError};
use firmware_extractor::extractor::abextractor::ABExtractor;
use firmware_extractor::extractor::aptarmd5extractor::ApTarMd5Extractor;
use firmware_extractor::extractor::sparsechunkextractor::SparseChunkExtractor;
use firmware_extractor::extractor::{Extractable, Extractor, Strategy};
use firmware_extractor::plan::{Action, Await, Event, StagedEntry, Step};
use firmware_extractor::utils::ZipFile;

const ZIP: [u8; 4] = [0x50, 0x4B, 0x03, 0x04];

fn archive(members: &[&str]) -> ZipFile {
    ZipFile::try_from(&ZIP, members.iter().map(|name| name.to_string()).collect()).unwrap()
}

fn events() -> Vec<Event> {
    vec![
        Event::Requested,
        Event::Staged { entries: vec![StagedEntry { name: "boot.img".to_string(), is_file: true }] },
        Event::Dispatched { sparse_data: true, transfer_list: true },
    ]
}

#[test]
fn an_archive_is_bound_to_the_strategy_of_its_kind() {
    let bound = Extractor::try_from(archive(&["system.new.dat", "system.transfer.list"]), "/t").unwrap();
    assert_eq!(bound.kind(), FirmwareKind::AOnly);
    assert!(matches!(bound.extractor, Strategy::AOnly(_)));
    let bound = Extractor::try_from(archive(&["payload.bin"]), "/t").unwrap();
    assert_eq!(bound.kind(), FirmwareKind::ABPayload);
    assert!(matches!(bound.extractor, Strategy::ABPayload(_)));
    let bound = Extractor::try_from(archive(&["AP_G960.tar.md5"]), "/t").unwrap();
    assert_eq!(bound.kind(), FirmwareKind::SamsungTar);
    assert!(matches!(bound.extractor, Strategy::SamsungTar(_)));
    let bound = Extractor::try_from(archive(&["img/system.img_sparsechunk.0"]), "/t").unwrap();
    assert_eq!(bound.kind(), FirmwareKind::SparseChunk);
    assert!(matches!(bound.extractor, Strategy::SparseChunk(_)));
}

#[test]
fn an_archive_of_no_known_kind_is_rejected() {
    let error = Extractor::try_from(archive(&["boot.img", "readme.txt"]), "/t").unwrap_err();
    assert_eq!(error.kind, ErrorKind::InvalidData);
    assert_eq!(error.message, "Unsupported firmware file");
    let error = Extractor::try_from(archive(&[]), "/t").unwrap_err();
    assert_eq!(error.kind, ErrorKind::InvalidData);
}

#[test]
fn the_kind_is_told_from_names_inside_directories_too() {
    let bound = Extractor::try_from(archive(&["rom/system.new.dat", "payload.bin"]), "/t").unwrap();
    assert_eq!(bound.kind(), FirmwareKind::AOnly);
}

#[test]
fn a_payload_inside_a_directory_cannot_be_staged() {
    let error = Extractor::try_from(archive(&["rom/payload.bin"]), "/t").unwrap_err();
    assert_eq!(error.kind, ErrorKind::NotFound);
    assert_eq!(error.message, "path payload.bin doesn't exist inside archive");
    assert!(ABExtractor::try_from(archive(&["rom/payload.bin"]), "/t").is_err());
    assert!(ABExtractor::try_from(archive(&["payload.bin"]), "/t").is_ok());
}

#[test]
fn the_payload_is_staged_once_before_extraction() {
    let bound = Extractor::try_from(archive(&["payload.bin"]), "/tmp/t7").unwrap();
    assert_eq!(
        bound.prepare(),
        vec![
            Action::Extract {
                member: "payload.bin".to_string(),
                destination: "/tmp/t7/payload.bin".to_string(),
            },
            Action::Load { payload: "/tmp/t7/payload.bin".to_string() },
        ]
    );
    let bound = Extractor::try_from(archive(&["system.new.dat"]), "/tmp/t7").unwrap();
    assert_eq!(bound.prepare(), vec![]);
    let bound = Extractor::try_from(archive(&["AP_x.tar.md5"]), "/tmp/t7").unwrap();
    assert_eq!(bound.prepare(), vec![]);
}

#[test]
fn ab_partitions_go_to_the_payload_decoder() {
    let ab = ABExtractor::try_from(archive(&["payload.bin"]), "/tmp/t7").unwrap();
    assert_eq!(ab.payload(), "/tmp/t7/payload.bin");
    assert_eq!(
        ab.extract("vendor", "/out", &Event::Requested).unwrap(),
        Step {
            actions: vec![Action::Payload {
                payload: "/tmp/t7/payload.bin".to_string(),
                partition: "vendor".to_string(),
                output: "/out".to_string(),
            }],
            next: Await::Nothing,
        }
    );
    assert_eq!(
        ab.extract("vendor", "/out", &Event::Dispatched { sparse_data: true, transfer_list: false })
            .unwrap(),
        Step { actions: vec![], next: Await::Nothing }
    );
}

#[test]
fn kinds_without_logic_say_so() {
    let samsung = ApTarMd5Extractor::from(archive(&["AP_x.tar.md5"]));
    let sparse = SparseChunkExtractor::from(archive(&["a_sparsechunk.0"]));
    let bound = Extractor::try_from(archive(&["AP_x.tar.md5"]), "/t").unwrap();
    for event in events() {
        for error in [
            samsung.extract("system", "/out", &event).unwrap_err(),
            sparse.extract("system", "/out", &event).unwrap_err(),
            bound.extract("system", "/out", &event).unwrap_err(),
        ] {
            assert_eq!(error.kind, ErrorKind::NotImplemented);
            assert_eq!(error.message, "Not implemented");
        }
    }
}

#[test]
fn a_bound_session_answers_as_its_strategy() {
    let bound = Extractor::try_from(
        archive(&["system.new.dat", "system.transfer.list", "boot.img"]),
        "/tmp/s",
    )
    .unwrap();
    assert_eq!(
        bound.extract("boot", "/out", &Event::Requested).unwrap(),
        Step {
            actions: vec![Action::Extract {
                member: "boot.img".to_string(),
                destination: "/tmp/s/boot.img".to_string(),
            }],
            next: Await::Listing { directory: "/tmp/s".to_string() },
        }
    );
}

#[test]
fn each_failure_has_its_kind_and_message() {
    let cases: Vec<(ExtractError, ErrorKind, &str)> = vec![
        (ExtractError::invalid_archive(), ErrorKind::InvalidData, "Input is not a valid ZIP file."),
        (ExtractError::unsupported_firmware(), ErrorKind::InvalidData, "Unsupported firmware file"),
        (
            ExtractError::missing_transfer_list("odm"),
            ErrorKind::NotFound,
            "Could not find transfer list file for odm.new.dat",
        ),
        (
            ExtractError::missing_member("a/b.bin"),
            ErrorKind::NotFound,
            "path a/b.bin doesn't exist inside archive",
        ),
        (ExtractError::not_implemented(), ErrorKind::NotImplemented, "Not implemented"),
        (ExtractError::invalid_stream(), ErrorKind::Decode, "Invalid Data"),
    ];
    for (error, kind, message) in cases {
        assert_eq!(error.kind, kind);
        assert_eq!(error.describe(), message);
    }
}
