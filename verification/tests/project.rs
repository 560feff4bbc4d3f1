use padfx::audio_files::{audio_format, format_of_lowercase, wav_sample_kind, AudioFormat, WavSampleKind};
use padfx::project::{sort_entries, AutoSaver, DirEntry, SaveAction, SaveEvent};

fn entry(name: &str, is_dir: bool) -> DirEntry {
    DirEntry { name: name.to_string(), path: format!("/lib/{}", name), is_dir }
}

#[test]
fn listing_puts_directories_first_then_names() {
    let sorted = sort_entries(vec![
        entry("kick.wav", false),
        entry("drums", true),
        entry("Snare.wav", false),
        entry("bass", true),
        entry("kick", false),
        entry("é.wav", false),
    ]);
    let names: Vec<&str> = sorted.iter().map(|e| e.name.as_str()).collect();
    assert_eq!(names, vec!["bass", "drums", "Snare.wav", "kick", "kick.wav", "é.wav"]);
    assert_eq!(sorted[0].path, "/lib/bass");
    assert!(sort_entries(vec![]).is_empty());
}

#[test]
fn autosave_writes_the_latest_state_after_a_quiet_wait() {
    let mut saver: AutoSaver<u32> = AutoSaver::new();
    assert!(matches!(saver.step(SaveEvent::Timeout), SaveAction::Wait));
    assert!(matches!(saver.step(SaveEvent::Received(1)), SaveAction::Wait));
    assert!(matches!(saver.step(SaveEvent::Received(2)), SaveAction::Wait));
    assert!(matches!(saver.step(SaveEvent::Timeout), SaveAction::Write(2)));
    assert!(matches!(saver.step(SaveEvent::Timeout), SaveAction::Wait));
    assert!(matches!(saver.step(SaveEvent::Received(3)), SaveAction::Wait));
    assert!(matches!(saver.step(SaveEvent::Disconnected), SaveAction::Stop));
}

#[test]
fn autosave_burst_of_any_length_writes_only_the_last() {
    let mut saver: AutoSaver<u32> = AutoSaver::new();
    let mut written = Vec::new();
    for s in 1..=7 {
        match saver.step(SaveEvent::Received(s)) {
            SaveAction::Wait => {}
            _ => panic!("nothing is written while states keep arriving"),
        }
    }
    for _ in 0..3 {
        if let SaveAction::Write(s) = saver.step(SaveEvent::Timeout) {
            written.push(s);
        }
    }
    assert_eq!(written, vec![7]);
}

#[test]
fn wav_sample_kinds() {
    assert_eq!(wav_sample_kind(true, 32), Ok(WavSampleKind::Float));
    assert_eq!(wav_sample_kind(false, 16), Ok(WavSampleKind::Int16));
    assert_eq!(wav_sample_kind(false, 24), Ok(WavSampleKind::Int24));
    assert_eq!(wav_sample_kind(false, 32), Ok(WavSampleKind::Int32));
    assert_eq!(wav_sample_kind(false, 8), Err(8));
}

#[test]
fn audio_formats_by_extension() {
    assert_eq!(audio_format("wav"), Ok(AudioFormat::Wav));
    assert_eq!(audio_format("WAV"), Ok(AudioFormat::Wav));
    assert_eq!(audio_format("Mp3"), Ok(AudioFormat::Mp3));
    assert_eq!(audio_format("FLAC"), Err("flac".to_string()));
    assert_eq!(audio_format(""), Err(String::new()));
}

#[test]
fn formats_by_lowercase_extension() {
    assert_eq!(format_of_lowercase("wav".to_string()), Ok(AudioFormat::Wav));
    assert_eq!(format_of_lowercase("mp3".to_string()), Ok(AudioFormat::Mp3));
    assert_eq!(format_of_lowercase("flac".to_string()), Err("flac".to_string()));
    assert_eq!(format_of_lowercase("WAV".to_string()), Err("WAV".to_string()));
}
