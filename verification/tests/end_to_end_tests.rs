use std::collections::BTreeMap;
use std::io::{Cursor, Read, Write};

use pnw_launcher::config::Manifest;
use pnw_launcher::http::{range_header, resume_offset, total_from_content_length};
use pnw_launcher::install::{plan_install, saves_subtree, ArchiveEntry, EntryAction, InstallPlan};
use pnw_launcher::session::{Directive, DownloadSession, ProgressEvent, Stage, CHUNK_BYTES};

fn parts(items: &[&str]) -> Vec<String> {
    items.iter().map(|s| s.to_string()).collect()
}

fn target() -> Vec<String> {
    parts(&["/", "games", "PNW"])
}

fn below(items: &[&str]) -> Vec<String> {
    let mut p = target();
    p.extend(parts(items));
    p
}

fn manifest() -> Manifest {
    Manifest {
        version: "1.2.0".to_string(),
        zip_url: "http://host/game.zip".to_string(),
        game_exe: None,
        folder: None,
    }
}

fn archive(files: &[(&str, &[u8], Option<u32>)]) -> Vec<u8> {
    let mut w = zip::ZipWriter::new(Cursor::new(Vec::new()));
    for (name, content, mode) in files {
        let mut options = zip::write::FileOptions::default();
        if let Some(m) = mode {
            options = options.unix_permissions(*m);
        }
        if name.ends_with('/') {
            w.add_directory(*name, options).unwrap();
        } else {
            w.start_file(*name, options).unwrap();
            w.write_all(content).unwrap();
        }
    }
    w.finish().unwrap().into_inner()
}

fn listing(bytes: &[u8]) -> Vec<ArchiveEntry> {
    let mut a = zip::ZipArchive::new(Cursor::new(bytes)).unwrap();
    (0..a.len())
        .map(|i| {
            let f = a.by_index(i).unwrap();
            ArchiveEntry { name: f.name().to_string(), is_dir: f.is_dir(), unix_mode: f.unix_mode() }
        })
        .collect()
}

/// Carries out a plan on a disk that is a map from paths to contents.
fn carry_out(plan: &InstallPlan, bytes: &[u8], disk: &mut BTreeMap<Vec<String>, Vec<u8>>) {
    let mut a = zip::ZipArchive::new(Cursor::new(bytes)).unwrap();
    for (i, action) in plan.actions.iter().enumerate() {
        if let EntryAction::WriteFile { path, .. } = action {
            let mut content = Vec::new();
            a.by_index(i).unwrap().read_to_end(&mut content).unwrap();
            disk.insert(path.clone(), content);
        }
    }
    disk.insert(plan.version_file.clone(), plan.version_text.clone().into_bytes());
}

/// Feeds `body` to the session chunk by chunk, as the worker does.
fn download(s: &mut DownloadSession, body: &[u8], temp: &mut Vec<u8>) -> Vec<ProgressEvent> {
    let mut events = Vec::new();
    let mut now = 10;
    for chunk in body.chunks(CHUNK_BYTES) {
        assert_eq!(s.checkpoint(), Ok(Directive::Read));
        temp.extend_from_slice(chunk);
        now += 25;
        events.push(s.chunk_received(chunk.len() as u64, now).unwrap());
    }
    assert_eq!(s.checkpoint(), Ok(Directive::Read));
    events
}

#[test]
fn an_update_installs_the_game_and_keeps_the_saves() {
    let m = manifest();
    let zip = archive(&[
        ("Game.exe", b"MZ-new", None),
        ("data/assets.bin", &[7u8; 200_000], None),
        ("Saves/slot1.sav", b"from the archive", None),
    ]);
    let mut disk: BTreeMap<Vec<String>, Vec<u8>> = BTreeMap::new();
    disk.insert(below(&["Saves", "slot1.sav"]), b"played for 40 hours".to_vec());
    disk.insert(below(&["Game.exe"]), b"MZ-old".to_vec());

    let mut s = DownloadSession::new();
    let mut temp = Vec::new();
    let offset = resume_offset(None);
    assert_eq!(range_header(offset), None);
    s.start(parts(&["cfg", "PNW", "download.tmp"]), offset, 0).unwrap();
    s.size_probed(total_from_content_length(Some(&zip.len().to_string())), 5).unwrap();
    let events = download(&mut s, &zip, &mut temp);
    assert_eq!(temp, zip);
    assert_eq!(s.bytes_downloaded(), zip.len() as u64);
    assert!(matches!(
        events.last(),
        Some(ProgressEvent::Download { downloaded, total, .. })
            if *downloaded == zip.len() as u64 && total == downloaded
    ));
    assert_eq!(s.stream_finished(), Ok(ProgressEvent::Extract { downloaded: 0, total: 1 }));

    let plan = plan_install(&target(), saves_subtree(), &m.version, &listing(&temp));
    assert_eq!(
        plan.actions,
        vec![
            EntryAction::WriteFile { path: below(&["Game.exe"]), unix_mode: Some(0o100644) },
            EntryAction::WriteFile { path: below(&["data", "assets.bin"]), unix_mode: Some(0o100644) },
            EntryAction::Skip,
        ]
    );
    assert_eq!(plan.reserved_dir, below(&["Saves"]));
    carry_out(&plan, &temp, &mut disk);

    assert_eq!(disk[&below(&["Game.exe"])], b"MZ-new");
    assert_eq!(disk[&below(&["data", "assets.bin"])], vec![7u8; 200_000]);
    assert_eq!(disk[&below(&["Saves", "slot1.sav"])], b"played for 40 hours");
    assert_eq!(disk[&below(&[".version"])], b"1.2.0");
    assert_eq!(disk.len(), 4);

    assert_eq!(s.installed(plan.extracted), Ok(ProgressEvent::Done { extracted: 2 }));
    assert_eq!(s.stage(), Stage::Done);
    assert_eq!(s.temp_path(), None);
}

#[test]
fn a_download_resumes_where_the_temporary_file_ends() {
    let served: Vec<u8> = (0..5000u32).map(|i| (i % 251) as u8).collect();
    let mut temp = served[..1000].to_vec();

    let mut s = DownloadSession::new();
    let offset = resume_offset(Some(temp.len() as u64));
    assert_eq!(offset, 1000);
    assert_eq!(range_header(offset), Some("bytes=1000-".to_string()));
    s.start(parts(&["download.tmp"]), offset, 0).unwrap();
    s.size_probed(total_from_content_length(Some("5000")), 1).unwrap();
    assert_eq!(s.total_bytes(), 5000);
    let rest = served[offset as usize..].to_vec();
    let events = download(&mut s, &rest, &mut temp);

    assert_eq!(events.len(), 1);
    assert_eq!(s.bytes_downloaded(), 5000);
    assert_eq!(temp, served);
    assert!(s.stream_finished().is_ok());
    assert_eq!(s.bytes_downloaded(), 5000);
}

#[test]
fn a_hostile_archive_cannot_write_outside_the_target() {
    let zip = archive(&[
        ("../../etc/cron.d/job", b"x", None),
        ("/abs/file", b"x", None),
        ("C:\\Windows\\win.ini", b"x", None),
        ("ok/../../Saves/slot1.sav", b"x", None),
        ("dir/", b"", None),
        ("tool.sh", b"#!/bin/sh", Some(0o755)),
    ]);
    let plan = plan_install(&target(), saves_subtree(), "2", &listing(&zip));
    assert_eq!(
        plan.actions,
        vec![
            EntryAction::WriteFile { path: below(&["etc", "cron.d", "job"]), unix_mode: Some(0o100644) },
            EntryAction::WriteFile { path: below(&["abs", "file"]), unix_mode: Some(0o100644) },
            EntryAction::WriteFile { path: below(&["Windows", "win.ini"]), unix_mode: Some(0o100644) },
            EntryAction::Skip,
            EntryAction::CreateDir { path: below(&["dir"]) },
            EntryAction::WriteFile { path: below(&["tool.sh"]), unix_mode: Some(0o100755) },
        ]
    );
    assert_eq!(plan.extracted, 4);
}

#[test]
fn a_cancel_in_the_middle_stops_the_download() {
    let body = vec![9u8; 3 * CHUNK_BYTES];
    let mut temp: Option<Vec<u8>> = Some(Vec::new());
    let mut s = DownloadSession::new();
    s.start(parts(&["download.tmp"]), 0, 0).unwrap();
    s.size_probed(body.len() as u64, 0).unwrap();

    let mut reported = Vec::new();
    let mut outcome = None;
    for (i, chunk) in body.chunks(CHUNK_BYTES).enumerate() {
        match s.checkpoint().unwrap() {
            Directive::Read => {}
            Directive::Wait(_) => unreachable!(),
            Directive::Abort(event) => {
                temp = None;
                reported.push(event);
                outcome = Some("canceled");
                break;
            }
        }
        temp.as_mut().unwrap().extend_from_slice(chunk);
        reported.push(s.chunk_received(chunk.len() as u64, 100 * (i as u64 + 1)).unwrap());
        if i == 0 {
            s.cancel();
        }
    }
    assert_eq!(outcome, Some("canceled"));
    assert_eq!(temp, None);
    assert_eq!(reported.len(), 2);
    assert_eq!(reported[1], ProgressEvent::Canceled);
    assert_eq!(reported[1].stage_name(), "canceled");
    assert_eq!(s.stage(), Stage::Canceled);
    assert_eq!(s.bytes_downloaded(), CHUNK_BYTES as u64);
}
