//! The subtitle downloader: what is handed to the download tool, and how
//! its answers are read. Running the tool is the caller's part.

use vstd::prelude::*;
use crate::text::{
    concat2, concat3, contains, lines, lines_of, owned, seq_contains, tokens, tokens_of, views,
};

verus! {

/// Why a download failed.
#[derive(Debug)]
pub enum YoutubeError {
    YtdlpNotFound,
    DownloadFailed { message: String },
    SubtitleNotFound { lang: String },
    SaveFailed { message: String },
}

/// The mathematical content of a [`YoutubeError`].
pub enum YoutubeErrorView {
    YtdlpNotFound,
    DownloadFailed { message: Seq<char> },
    SubtitleNotFound { lang: Seq<char> },
    SaveFailed { message: Seq<char> },
}

impl View for YoutubeError {
    type V = YoutubeErrorView;

    open spec fn view(&self) -> YoutubeErrorView {
        match *self {
            YoutubeError::YtdlpNotFound => YoutubeErrorView::YtdlpNotFound,
            YoutubeError::DownloadFailed { message } => YoutubeErrorView::DownloadFailed {
                message: message@,
            },
            YoutubeError::SubtitleNotFound { lang } => YoutubeErrorView::SubtitleNotFound {
                lang: lang@,
            },
            YoutubeError::SaveFailed { message } => YoutubeErrorView::SaveFailed { message: message@ },
        }
    }
}

impl YoutubeError {
    /// The error as a line of text.
    pub fn message(&self) -> (r: String)
        ensures
            r@ == match self@ {
                YoutubeErrorView::YtdlpNotFound => "yt-dlpがインストールされていません"@,
                YoutubeErrorView::DownloadFailed { message } => "ダウンロード失敗: "@ + message,
                YoutubeErrorView::SubtitleNotFound { lang } => lang + "の字幕が見つかりません"@,
                YoutubeErrorView::SaveFailed { message } => "保存失敗: "@ + message,
            },
    {
        match self {
            YoutubeError::YtdlpNotFound => owned("yt-dlpがインストールされていません"),
            YoutubeError::DownloadFailed { message } => concat2("ダウンロード失敗: ", message.as_str()),
            YoutubeError::SubtitleNotFound { lang } => concat2(lang.as_str(), "の字幕が見つかりません"),
            YoutubeError::SaveFailed { message } => concat2("保存失敗: ", message.as_str()),
        }
    }
}

/// What a download gave.
#[derive(Debug)]
pub struct SubtitleDownloadResult {
    pub file_path: String,
    pub title: String,
    pub lang: String,
    pub size: u64,
}

/// The arguments of a subtitle download: subtitles only, in WebVTT, written
/// under the title of the video, whose title is printed.
pub open spec fn download_arguments(url: Seq<char>, output_dir: Seq<char>, lang: Seq<char>) -> Seq<
    Seq<char>,
> {
    seq![
        "--write-sub"@,
        "--write-auto-sub"@,
        "--sub-lang"@,
        lang,
        "--skip-download"@,
        "--sub-format"@,
        "vtt"@,
        "-o"@,
        output_dir + "/%(title)s."@ + lang + ".%(ext)s"@,
        "--print"@,
        "%(title)s"@,
        url,
    ]
}

/// How a failed download is reported: as missing subtitles where the tool
/// says so, as a failed download otherwise.
pub open spec fn failure_of(stderr: Seq<char>, lang: Seq<char>) -> YoutubeErrorView {
    if seq_contains(stderr, "Requested subtitles language"@) || seq_contains(
        stderr,
        "not available"@,
    ) {
        YoutubeErrorView::SubtitleNotFound { lang }
    } else {
        YoutubeErrorView::DownloadFailed { message: stderr }
    }
}

/// The language codes in the first `n` lines of the tool's list of
/// subtitles: the first word of each line of two words or more, where that
/// word has at most five bytes.
pub open spec fn listed_languages(all: Seq<Seq<char>>, n: int) -> Seq<Seq<char>>
    decreases n,
{
    if n <= 0 {
        Seq::empty()
    } else {
        let words = tokens_of(all[n - 1]);
        if words.len() >= 2 && (vstd::utf8::encode_utf8(words[0]).len() as usize) <= 5 {
            listed_languages(all, n - 1).push(words[0])
        } else {
            listed_languages(all, n - 1)
        }
    }
}

/// The downloader: the download tool and how to call it.
#[derive(Debug)]
pub struct YoutubeDownloader {
    ytdlp_path: String,
}

impl YoutubeDownloader {
    /// The download tool that is run.
    pub closed spec fn tool(&self) -> Seq<char> {
        self.ytdlp_path@
    }

    /// A downloader that runs `yt-dlp` from the search path.
    pub fn new() -> (r: Self)
        ensures
            r.tool() == "yt-dlp"@,
    {
        YoutubeDownloader { ytdlp_path: owned("yt-dlp") }
    }

    /// A downloader that runs the tool at the given path.
    pub fn with_path(ytdlp_path: &str) -> (r: Self)
        ensures
            r.tool() == ytdlp_path@,
    {
        YoutubeDownloader { ytdlp_path: owned(ytdlp_path) }
    }

    /// The download tool that is run.
    pub fn program(&self) -> (r: &str)
        ensures
            r@ == self.tool(),
    {
        self.ytdlp_path.as_str()
    }

    /// The arguments of a subtitle download.
    pub fn download_args(&self, url: &str, output_dir: &str, lang: &str) -> (r: Vec<String>)
        ensures
            views(r@) == download_arguments(url@, output_dir@, lang@),
    {
        let template = concat2(
            concat3(output_dir, "/%(title)s.", lang).as_str(),
            ".%(ext)s",
        );
        let mut args: Vec<String> = Vec::new();
        args.push(owned("--write-sub"));
        args.push(owned("--write-auto-sub"));
        args.push(owned("--sub-lang"));
        args.push(owned(lang));
        args.push(owned("--skip-download"));
        args.push(owned("--sub-format"));
        args.push(owned("vtt"));
        args.push(owned("-o"));
        args.push(template);
        args.push(owned("--print"));
        args.push(owned("%(title)s"));
        args.push(owned(url));
        proof {
            assert(views(args@) =~= download_arguments(url@, output_dir@, lang@));
        }
        args
    }

    /// The error that a failed download is reported as.
    pub fn download_failure(&self, stderr: &str, lang: &str) -> (r: YoutubeError)
        ensures
            r@ == failure_of(stderr@, lang@),
    {
        if contains(stderr, "Requested subtitles language") || contains(stderr, "not available") {
            YoutubeError::SubtitleNotFound { lang: owned(lang) }
        } else {
            YoutubeError::DownloadFailed { message: owned(stderr) }
        }
    }

    /// The name under which the subtitles of a video are expected.
    pub fn expected_file_name(&self, title: &str, lang: &str) -> (r: String)
        ensures
            r@ == title@ + "."@ + lang@ + ".vtt"@,
    {
        concat2(concat3(title, ".", lang).as_str(), ".vtt")
    }

    /// The error for an output directory without a subtitle file.
    pub fn missing_file(&self, output_dir: &str) -> (r: YoutubeError)
        ensures
            r@ == (YoutubeErrorView::SaveFailed {
                message: "Subtitle file not found in "@ + output_dir@,
            }),
    {
        YoutubeError::SaveFailed { message: concat2("Subtitle file not found in ", output_dir) }
    }

    /// The language codes in the tool's list of subtitles.
    pub fn listed_subs(&self, stdout: &str) -> (r: Vec<String>)
        ensures
            views(r@) == listed_languages(lines_of(stdout@), lines_of(stdout@).len() as int),
    {
        let all = lines(stdout);
        let mut out: Vec<String> = Vec::new();
        let mut i: usize = 0;
        proof {
            assert(views(out@) =~= Seq::<Seq<char>>::empty());
        }
        while i < all.len()
            invariant
                0 <= i <= all.len(),
                views(all@) == lines_of(stdout@),
                views(out@) == listed_languages(views(all@), i as int),
            decreases all.len() - i,
        {
            proof {
                assert(views(all@)[i as int] == all@[i as int]@);
            }
            let words = tokens(all[i].as_str());
            if words.len() >= 2 {
                proof {
                    assert(views(words@)[0] == words@[0]@);
                }
                if words[0].as_str().len() <= 5 {
                    let ghost ov = views(out@);
                    out.push(words[0].clone());
                    proof {
                        assert(views(out@) =~= ov.push(words@[0]@));
                    }
                }
            }
            i = i + 1;
        }
        out
    }
}

impl Default for YoutubeDownloader {
    fn default() -> (r: Self)
        ensures
            r.tool() == "yt-dlp"@,
    {
        YoutubeDownloader::new()
    }
}

} // verus!
