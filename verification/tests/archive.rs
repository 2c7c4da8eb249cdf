use std::io::Read;

use debpack::ar::assemble;
use debpack::ar::ArMember;
use debpack::deb::build_deb;
use debpack::deb::output_file_name;
use debpack::manifest::description_default;
use debpack::manifest::ManifestFile;
use debpack::manifest::Scripts;
use debpack::tar::build_control_tar;
use debpack::tar::build_data_tar;
use debpack::tar::DataEntry;
use debpack::PackError;

fn hello_manifest() -> ManifestFile {
    ManifestFile {
        name: String::from("hello"),
        version: String::from("1.0"),
        arch: String::from("all"),
        maintainer: None,
        description: description_default(),
        homepage: None,
        depends: Vec::new(),
        recommends: Vec::new(),
        suggests: Vec::new(),
        provides: Vec::new(),
        conflicts: Vec::new(),
        files: vec![(String::from("hello.sh"), String::from("bin/hello"))],
    }
}

fn hello_entry() -> DataEntry {
    DataEntry {
        dest: String::from("bin/hello"),
        content: Some(b"#!/bin/sh\necho hi\n".to_vec()),
        executable: true,
    }
}

fn gunzip(data: &[u8]) -> Vec<u8> {
    let mut out = Vec::new();
    flate2::read::GzDecoder::new(data).read_to_end(&mut out).unwrap();
    out
}

/// A parsed tar entry: name, mode field text, content bytes.
struct TarEnt {
    name: String,
    mode: String,
    content: Vec<u8>,
}

fn parse_tar(stream: &[u8]) -> Vec<TarEnt> {
    let mut entries = Vec::new();
    let mut pos = 0;
    while pos + 512 <= stream.len() {
        let header = &stream[pos..pos + 512];
        if header.iter().all(|b| *b == 0) {
            break;
        }
        let name_end = header[..100].iter().position(|b| *b == 0).unwrap_or(100);
        let name = String::from_utf8(header[..name_end].to_vec()).unwrap();
        let mode = String::from_utf8(header[100..107].to_vec()).unwrap();
        let size_text = std::str::from_utf8(&header[124..135]).unwrap();
        let size = usize::from_str_radix(size_text, 8).unwrap();
        let content = stream[pos + 512..pos + 512 + size].to_vec();
        entries.push(TarEnt { name, mode, content });
        let padded = if size % 512 == 0 { size } else { size + 512 - size % 512 };
        pos += 512 + padded;
    }
    entries
}

/// A parsed ar member: name and content bytes.
fn parse_ar(archive: &[u8]) -> Vec<(String, Vec<u8>)> {
    assert_eq!(&archive[..8], b"!<arch>\n");
    let mut members = Vec::new();
    let mut pos = 8;
    while pos + 60 <= archive.len() {
        let header = &archive[pos..pos + 60];
        let name = std::str::from_utf8(&header[..16]).unwrap().trim_end().to_string();
        let size: usize = std::str::from_utf8(&header[48..58]).unwrap().trim_end().parse().unwrap();
        assert_eq!(&header[58..60], b"`\n");
        let content = archive[pos + 60..pos + 60 + size].to_vec();
        members.push((name, content));
        pos += 60 + size + size % 2;
    }
    members
}

#[test]
fn data_tar_holds_file_and_synthesized_directory() {
    let tar = build_data_tar(&vec![hello_entry()]).unwrap();
    assert_eq!(tar.len() % 512, 0);
    let entries = parse_tar(&tar);
    assert_eq!(entries.len(), 2);
    assert_eq!(entries[0].name, "./bin/");
    assert_eq!(entries[0].mode, "0000755");
    assert_eq!(entries[0].content, Vec::<u8>::new());
    assert_eq!(entries[1].name, "./bin/hello");
    assert_eq!(entries[1].mode, "0000755");
    assert_eq!(entries[1].content, b"#!/bin/sh\necho hi\n".to_vec());
}

#[test]
fn data_tar_checksums_are_valid() {
    let tar = build_data_tar(&vec![hello_entry()]).unwrap();
    let header = &tar[..512];
    let recorded = usize::from_str_radix(std::str::from_utf8(&header[148..154]).unwrap(), 8).unwrap();
    let sum: usize = header
        .iter()
        .enumerate()
        .map(|(i, b)| if (148..156).contains(&i) { 0x20 } else { *b as usize })
        .sum();
    assert_eq!(recorded, sum);
}

#[test]
fn data_tar_synthesizes_each_directory_once() {
    let entries = vec![
        DataEntry {
            dest: String::from("share/man/man1/a.1"),
            content: Some(b"a".to_vec()),
            executable: false,
        },
        DataEntry {
            dest: String::from("share/man/man1/b.1"),
            content: Some(b"b".to_vec()),
            executable: false,
        },
    ];
    let tar = build_data_tar(&entries).unwrap();
    let names: Vec<String> = parse_tar(&tar).into_iter().map(|e| e.name).collect();
    assert_eq!(
        names,
        vec![
            "./share/",
            "./share/man/",
            "./share/man/man1/",
            "./share/man/man1/a.1",
            "./share/man/man1/b.1",
        ]
    );
}

#[test]
fn data_tar_uses_non_executable_mode_by_default() {
    let entry = DataEntry {
        dest: String::from("note.txt"),
        content: Some(b"hi".to_vec()),
        executable: false,
    };
    let tar = build_data_tar(&vec![entry]).unwrap();
    let entries = parse_tar(&tar);
    assert_eq!(entries.len(), 1);
    assert_eq!(entries[0].mode, "0000644");
}

#[test]
fn data_tar_rejects_duplicate_destinations() {
    let entries = vec![
        DataEntry { dest: String::from("bin/x"), content: Some(b"a".to_vec()), executable: false },
        DataEntry { dest: String::from("bin/x"), content: Some(b"b".to_vec()), executable: false },
    ];
    assert_eq!(build_data_tar(&entries), Err(PackError::DuplicateDestination));
}

#[test]
fn data_tar_rejects_missing_source() {
    let entries = vec![DataEntry { dest: String::from("bin/x"), content: None, executable: false }];
    assert_eq!(build_data_tar(&entries), Err(PackError::SourceFileNotFound));
}

#[test]
fn control_tar_orders_control_then_scripts() {
    let scripts = Scripts {
        preinst: None,
        postinst: Some(b"#!/bin/sh\n".to_vec()),
        prerm: None,
        postrm: Some(b"#!/bin/sh\nexit 0\n".to_vec()),
    };
    let control = b"Package: hello\n".to_vec();
    let tar = build_control_tar(&control, &scripts).unwrap();
    let entries = parse_tar(&tar);
    let names: Vec<&str> = entries.iter().map(|e| e.name.as_str()).collect();
    assert_eq!(names, vec!["./control", "./postinst", "./postrm"]);
    assert_eq!(entries[0].mode, "0000644");
    assert_eq!(entries[0].content, control);
    assert_eq!(entries[1].mode, "0000755");
    assert_eq!(entries[2].content, b"#!/bin/sh\nexit 0\n".to_vec());
}

fn member(name: &str, data: &[u8]) -> ArMember {
    ArMember { name: String::from(name), data: data.to_vec() }
}

#[test]
fn assemble_frames_three_members() {
    let members = vec![
        member("debian-binary", b"2.0\n"),
        member("control.tar.gz", b"cc"),
        member("data.tar.gz", b"ddd"),
    ];
    let out = assemble(&members).unwrap();
    let parsed = parse_ar(&out);
    assert_eq!(parsed.len(), 3);
    assert_eq!(parsed[0], (String::from("debian-binary"), b"2.0\n".to_vec()));
    assert_eq!(parsed[1], (String::from("control.tar.gz"), b"cc".to_vec()));
    assert_eq!(parsed[2], (String::from("data.tar.gz"), b"ddd".to_vec()));
}

#[test]
fn assemble_pads_odd_members_outside_recorded_size() {
    let members = vec![
        member("debian-binary", b"2.0\n"),
        member("control.tar.gz", b"c"),
        member("data.tar.gz", b"dd"),
    ];
    let out = assemble(&members).unwrap();
    // magic + (60 + 4) + (60 + 1 + 1 pad) + (60 + 2)
    assert_eq!(out.len(), 8 + 64 + 62 + 62);
}

#[test]
fn assemble_rejects_wrong_member_count() {
    let members = vec![member("debian-binary", b"2.0\n"), member("control.tar.gz", b"c")];
    assert_eq!(assemble(&members), Err(PackError::InvalidMemberLayout));
}

#[test]
fn assemble_rejects_wrong_member_order() {
    let members = vec![
        member("debian-binary", b"2.0\n"),
        member("data.tar.gz", b"d"),
        member("control.tar.gz", b"c"),
    ];
    assert_eq!(assemble(&members), Err(PackError::InvalidMemberLayout));
}

#[test]
fn build_deb_end_to_end() {
    let deb = build_deb(&hello_manifest(), &vec![hello_entry()], &Scripts::none()).unwrap();
    let members = parse_ar(&deb);
    assert_eq!(members.len(), 3);
    assert_eq!(members[0].0, "debian-binary");
    assert_eq!(members[0].1, b"2.0\n".to_vec());
    assert_eq!(members[1].0, "control.tar.gz");
    assert_eq!(members[2].0, "data.tar.gz");

    let control_entries = parse_tar(&gunzip(&members[1].1));
    assert_eq!(control_entries.len(), 1);
    assert_eq!(control_entries[0].name, "./control");
    let expected_control =
        "Package: hello\nVersion: 1.0\nArchitecture: all\nMaintainer: None\nDescription: No description\n";
    assert_eq!(control_entries[0].content, expected_control.as_bytes().to_vec());

    let data_entries = parse_tar(&gunzip(&members[2].1));
    assert_eq!(data_entries.len(), 2);
    assert_eq!(data_entries[1].name, "./bin/hello");
    assert_eq!(data_entries[1].mode, "0000755");
    assert_eq!(data_entries[1].content, b"#!/bin/sh\necho hi\n".to_vec());
}

#[test]
fn build_deb_round_trip_recovers_declared_file() {
    let entry = DataEntry {
        dest: String::from("share/doc/readme"),
        content: Some(b"lorem ipsum".to_vec()),
        executable: false,
    };
    let mut manifest = hello_manifest();
    manifest.files = vec![(String::from("readme"), String::from("share/doc/readme"))];
    let deb = build_deb(&manifest, &vec![entry], &Scripts::none()).unwrap();
    let members = parse_ar(&deb);
    let data_entries = parse_tar(&gunzip(&members[2].1));
    let files: Vec<&TarEnt> =
        data_entries.iter().filter(|e| !e.name.ends_with('/')).collect();
    assert_eq!(files.len(), 1);
    assert_eq!(files[0].name, "./share/doc/readme");
    assert_eq!(files[0].content, b"lorem ipsum".to_vec());
}

#[test]
fn build_deb_is_reproducible() {
    let first = build_deb(&hello_manifest(), &vec![hello_entry()], &Scripts::none()).unwrap();
    let second = build_deb(&hello_manifest(), &vec![hello_entry()], &Scripts::none()).unwrap();
    assert_eq!(first, second);
}

#[test]
fn build_deb_rejects_duplicate_destinations() {
    let mut manifest = hello_manifest();
    manifest.files = vec![
        (String::from("a"), String::from("bin/x")),
        (String::from("b"), String::from("bin/x")),
    ];
    let entries = vec![
        DataEntry { dest: String::from("bin/x"), content: Some(b"a".to_vec()), executable: false },
        DataEntry { dest: String::from("bin/x"), content: Some(b"b".to_vec()), executable: false },
    ];
    assert_eq!(
        build_deb(&manifest, &entries, &Scripts::none()),
        Err(PackError::DuplicateDestination)
    );
}

#[test]
fn build_deb_rejects_unknown_arch_before_archiving() {
    let mut manifest = hello_manifest();
    manifest.arch = String::from("mips");
    assert_eq!(
        build_deb(&manifest, &vec![hello_entry()], &Scripts::none()),
        Err(PackError::InvalidArchitecture)
    );
}

#[test]
fn output_file_name_matches_convention() {
    assert_eq!(output_file_name(&hello_manifest()), "hello_1.0_all.deb");
}
