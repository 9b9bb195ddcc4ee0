use acp_core::youtube::{YoutubeDownloader, YoutubeError};

#[test]
fn the_downloader_builds_its_arguments() {
    let d = YoutubeDownloader::new();
    assert_eq!(d.program(), "yt-dlp");
    assert_eq!(YoutubeDownloader::with_path("/opt/yt").program(), "/opt/yt");
    assert_eq!(YoutubeDownloader::default().program(), "yt-dlp");
    assert_eq!(
        d.download_args("https://v", "/out", "en"),
        vec![
            "--write-sub",
            "--write-auto-sub",
            "--sub-lang",
            "en",
            "--skip-download",
            "--sub-format",
            "vtt",
            "-o",
            "/out/%(title)s.en.%(ext)s",
            "--print",
            "%(title)s",
            "https://v"
        ]
    );
    assert_eq!(d.expected_file_name("My Video", "ja"), "My Video.ja.vtt");
}

#[test]
fn download_failures_are_told_apart() {
    let d = YoutubeDownloader::new();
    assert!(matches!(
        d.download_failure("ERROR: Requested subtitles language is missing", "ko"),
        YoutubeError::SubtitleNotFound { lang } if lang == "ko"
    ));
    assert!(matches!(
        d.download_failure("subtitles not available", "ko"),
        YoutubeError::SubtitleNotFound { .. }
    ));
    assert!(matches!(
        d.download_failure("network down", "ko"),
        YoutubeError::DownloadFailed { message } if message == "network down"
    ));
    assert!(matches!(
        d.missing_file("/out"),
        YoutubeError::SaveFailed { message } if message == "Subtitle file not found in /out"
    ));
    assert_eq!(YoutubeError::YtdlpNotFound.message(), "yt-dlpがインストールされていません");
    assert_eq!(
        YoutubeError::DownloadFailed { message: "m".into() }.message(),
        "ダウンロード失敗: m"
    );
    assert_eq!(
        YoutubeError::SubtitleNotFound { lang: "en".into() }.message(),
        "enの字幕が見つかりません"
    );
    assert_eq!(YoutubeError::SaveFailed { message: "m".into() }.message(), "保存失敗: m");
}

#[test]
fn listed_languages_are_short_first_words() {
    let d = YoutubeDownloader::new();
    let out = "Language Name\nen       English\nzh-CN    Chinese\nlonger-code Something\nsolo\n\n  ja   Japanese  (auto)\n日本 x\n";
    assert_eq!(d.listed_subs(out), vec!["en", "zh-CN", "ja"]);
    assert!(d.listed_subs("").is_empty());
}
