//! The glyphs and colours that stand for files and folders.

use crate::color::Rgb;
use crate::strings::{lowercase, same_text, text_lowercase};
use crate::text::{after_last, has_char, lower_text, lowered, tail_of, trim, trim_text};
use vstd::prelude::*;
use vstd::string::*;

verus! {

/// The sets of glyphs.
#[derive(Debug, Clone, Copy, PartialEq, Eq, Structural)]
pub enum IconMode {
    /// The glyphs of a patched font.
    Nerd,
    /// Symbols that every modern terminal draws.
    Unicode,
    /// ASCII alone.
    Ascii,
}

/// The set that a lower-case name stands for.
pub open spec fn mode_of(name: Seq<char>) -> IconMode {
    if name == "unicode"@ {
        IconMode::Unicode
    } else if name == "ascii"@ {
        IconMode::Ascii
    } else {
        IconMode::Nerd
    }
}

/// The set that a lower-case name stands for.
pub fn mode_named(name: &str) -> (r: IconMode)
    ensures
        r == mode_of(name@),
{
    if same_text(name, "unicode") {
        IconMode::Unicode
    } else if same_text(name, "ascii") {
        IconMode::Ascii
    } else {
        IconMode::Nerd
    }
}

impl IconMode {
    /// The set that the configuration names, whatever its case and the blanks
    /// around it. An unknown name means `Nerd`.
    pub fn from_str(s: &str) -> (r: IconMode)
        ensures
            r == mode_of(text_lowercase(trim_text(s@))),
    {
        let name = lowercase(trim(s).as_str());
        mode_named(name.as_str())
    }
}

/// The glyphs of a set.
#[derive(Debug, Clone, Copy)]
pub struct Icons {
    pub mode: IconMode,
    pub folder_closed: &'static str,
    /// In front of the search box.
    pub search: &'static str,
    pub file_default: &'static str,
}

impl Icons {
    /// Whether these are the glyphs of the set `mode`.
    pub open spec fn shows(self, mode: IconMode) -> bool {
        &&& self.mode == mode
        &&& self.folder_closed@ == match mode {
            IconMode::Nerd => "\u{f07b}"@,
            IconMode::Unicode => ""@,
            IconMode::Ascii => "+"@,
        }
        &&& self.search@ == match mode {
            IconMode::Nerd => "\u{2315}"@,
            IconMode::Unicode => "\u{2315}"@,
            IconMode::Ascii => "/"@,
        }
        &&& self.file_default@ == match mode {
            IconMode::Nerd => "\u{f15b}"@,
            IconMode::Unicode => ""@,
            IconMode::Ascii => " "@,
        }
    }

    pub fn new(mode: IconMode) -> (r: Icons)
        ensures
            r.shows(mode),
    {
        match mode {
            IconMode::Nerd => Icons {
                mode,
                folder_closed: "\u{f07b}",
                search: "\u{2315}",
                file_default: "\u{f15b}",
            },
            IconMode::Unicode => Icons {
                mode,
                folder_closed: "",
                search: "\u{2315}",
                file_default: "",
            },
            IconMode::Ascii => Icons {
                mode,
                folder_closed: "+",
                search: "/",
                file_default: " ",
            },
        }
    }

    /// The glyph and the colour of a file. The colour tells the kind of file;
    /// the glyph is a dot, or the default one in ASCII.
    pub fn file(&self, name: &str) -> (r: (&'static str, Rgb))
        ensures
            r.0@ == match self.mode {
                IconMode::Ascii => self.file_default@,
                _ => "\u{25cf}"@,
            },
            r.1 == color_of(text_lowercase(tail_of(name@, '.')), name@),
    {
        let ext = lowercase(after_last(name, '.').as_str());
        let glyph = match self.mode {
            IconMode::Nerd | IconMode::Unicode => "\u{25cf}",
            IconMode::Ascii => self.file_default,
        };
        (glyph, file_color(ext.as_str(), name))
    }
}

/// The colour of a file with the lower-case extension `ext`.
pub open spec fn color_of(ext: Seq<char>, name: Seq<char>) -> Rgb {
    if name == ".gitignore"@ || ext == "git"@ || ext == "gitignore"@ {
        Rgb(240, 80, 50)
    } else if ext == "rs"@ {
        Rgb(222, 165, 132)
    } else if ext == "py"@ {
        Rgb(255, 212, 59)
    } else if ext == "js"@ || ext == "mjs"@ || ext == "cjs"@ {
        Rgb(240, 219, 79)
    } else if ext == "ts"@ || ext == "tsx"@ {
        Rgb(49, 120, 198)
    } else if ext == "jsx"@ {
        Rgb(97, 218, 251)
    } else if ext == "go"@ {
        Rgb(0, 173, 216)
    } else if ext == "json"@ {
        Rgb(203, 203, 65)
    } else if ext == "toml"@ || ext == "ini"@ || ext == "cfg"@ || ext == "conf"@ || ext == "yaml"@ || ext == "yml"@ {
        Rgb(160, 160, 160)
    } else if ext == "md"@ || ext == "markdown"@ {
        Rgb(97, 175, 239)
    } else if ext == "html"@ || ext == "htm"@ {
        Rgb(228, 77, 38)
    } else if ext == "css"@ {
        Rgb(86, 156, 214)
    } else if ext == "lock"@ {
        Rgb(130, 130, 130)
    } else {
        Rgb(150, 160, 175)
    }
}

/// The colour of a file, by its name and its lower-case extension.
pub fn file_color(ext: &str, name: &str) -> (r: Rgb)
    ensures
        r == color_of(ext@, name@),
{
    if same_text(name, ".gitignore") || same_text(ext, "git") || same_text(ext, "gitignore") {
        Rgb(240, 80, 50)
    } else if same_text(ext, "rs") {
        Rgb(222, 165, 132)
    } else if same_text(ext, "py") {
        Rgb(255, 212, 59)
    } else if same_text(ext, "js") || same_text(ext, "mjs") || same_text(ext, "cjs") {
        Rgb(240, 219, 79)
    } else if same_text(ext, "ts") || same_text(ext, "tsx") {
        Rgb(49, 120, 198)
    } else if same_text(ext, "jsx") {
        Rgb(97, 218, 251)
    } else if same_text(ext, "go") {
        Rgb(0, 173, 216)
    } else if same_text(ext, "json") {
        Rgb(203, 203, 65)
    } else if same_text(ext, "toml") || same_text(ext, "ini") || same_text(ext, "cfg") || same_text(ext, "conf") || same_text(ext, "yaml") || same_text(ext, "yml") {
        Rgb(160, 160, 160)
    } else if same_text(ext, "md") || same_text(ext, "markdown") {
        Rgb(97, 175, 239)
    } else if same_text(ext, "html") || same_text(ext, "htm") {
        Rgb(228, 77, 38)
    } else if same_text(ext, "css") {
        Rgb(86, 156, 214)
    } else if same_text(ext, "lock") {
        Rgb(130, 130, 130)
    } else {
        Rgb(150, 160, 175)
    }
}

/// Whether an extension is that of an image.
pub open spec fn image_ext(e: Seq<char>) -> bool {
    e == "png"@ || e == "jpg"@ || e == "jpeg"@ || e == "gif"@ || e == "bmp"@ || e == "webp"@
        || e == "ico"@ || e == "tif"@ || e == "tiff"@ || e == "heic"@ || e == "heif"@
        || e == "avif"@ || e == "psd"@
}

fn is_image(e: &str) -> (r: bool)
    ensures
        r == image_ext(e@),
{
    same_text(e, "png") || same_text(e, "jpg") || same_text(e, "jpeg") || same_text(e, "gif")
        || same_text(e, "bmp") || same_text(e, "webp") || same_text(e, "ico")
        || same_text(e, "tif") || same_text(e, "tiff") || same_text(e, "heic")
        || same_text(e, "heif") || same_text(e, "avif") || same_text(e, "psd")
}

/// Whether an extension is that of a document.
pub open spec fn document_ext(e: Seq<char>) -> bool {
    e == "pdf"@ || e == "doc"@ || e == "docx"@ || e == "xls"@ || e == "xlsx"@ || e == "ppt"@
        || e == "pptx"@ || e == "odt"@ || e == "ods"@ || e == "odp"@
}

fn is_document(e: &str) -> (r: bool)
    ensures
        r == document_ext(e@),
{
    same_text(e, "pdf") || same_text(e, "doc") || same_text(e, "docx") || same_text(e, "xls")
        || same_text(e, "xlsx") || same_text(e, "ppt") || same_text(e, "pptx")
        || same_text(e, "odt") || same_text(e, "ods") || same_text(e, "odp")
}

/// Whether an extension is that of an archive.
pub open spec fn archive_ext(e: Seq<char>) -> bool {
    e == "zip"@ || e == "tar"@ || e == "gz"@ || e == "tgz"@ || e == "bz2"@ || e == "xz"@
        || e == "zst"@ || e == "7z"@ || e == "rar"@ || e == "jar"@ || e == "war"@ || e == "dmg"@
        || e == "iso"@
}

fn is_archive(e: &str) -> (r: bool)
    ensures
        r == archive_ext(e@),
{
    same_text(e, "zip") || same_text(e, "tar") || same_text(e, "gz") || same_text(e, "tgz")
        || same_text(e, "bz2") || same_text(e, "xz") || same_text(e, "zst")
        || same_text(e, "7z") || same_text(e, "rar") || same_text(e, "jar")
        || same_text(e, "war") || same_text(e, "dmg") || same_text(e, "iso")
}

/// Whether an extension is that of sound or video.
pub open spec fn media_ext(e: Seq<char>) -> bool {
    e == "mp3"@ || e == "wav"@ || e == "flac"@ || e == "ogg"@ || e == "oga"@ || e == "m4a"@
        || e == "aac"@ || e == "opus"@ || e == "mp4"@ || e == "m4v"@ || e == "mov"@
        || e == "avi"@ || e == "mkv"@ || e == "webm"@ || e == "wmv"@ || e == "flv"@
}

fn is_media(e: &str) -> (r: bool)
    ensures
        r == media_ext(e@),
{
    same_text(e, "mp3") || same_text(e, "wav") || same_text(e, "flac") || same_text(e, "ogg")
        || same_text(e, "oga") || same_text(e, "m4a") || same_text(e, "aac")
        || same_text(e, "opus") || same_text(e, "mp4") || same_text(e, "m4v")
        || same_text(e, "mov") || same_text(e, "avi") || same_text(e, "mkv")
        || same_text(e, "webm") || same_text(e, "wmv") || same_text(e, "flv")
}

/// Whether an extension is that of a font.
pub open spec fn font_ext(e: Seq<char>) -> bool {
    e == "ttf"@ || e == "otf"@ || e == "woff"@ || e == "woff2"@ || e == "eot"@
}

fn is_font(e: &str) -> (r: bool)
    ensures
        r == font_ext(e@),
{
    same_text(e, "ttf") || same_text(e, "otf") || same_text(e, "woff") || same_text(e, "woff2")
        || same_text(e, "eot")
}

/// Whether an extension is that of compiled code.
pub open spec fn compiled_ext(e: Seq<char>) -> bool {
    e == "exe"@ || e == "dll"@ || e == "so"@ || e == "dylib"@ || e == "o"@ || e == "obj"@
        || e == "a"@ || e == "lib"@ || e == "class"@ || e == "pyc"@ || e == "pyo"@
        || e == "wasm"@ || e == "bin"@ || e == "node"@
}

fn is_compiled(e: &str) -> (r: bool)
    ensures
        r == compiled_ext(e@),
{
    same_text(e, "exe") || same_text(e, "dll") || same_text(e, "so") || same_text(e, "dylib")
        || same_text(e, "o") || same_text(e, "obj") || same_text(e, "a") || same_text(e, "lib")
        || same_text(e, "class") || same_text(e, "pyc") || same_text(e, "pyo")
        || same_text(e, "wasm") || same_text(e, "bin") || same_text(e, "node")
}

/// Whether an extension is that of a database.
pub open spec fn database_ext(e: Seq<char>) -> bool {
    e == "db"@ || e == "sqlite"@ || e == "sqlite3"@
}

fn is_database(e: &str) -> (r: bool)
    ensures
        r == database_ext(e@),
{
    same_text(e, "db") || same_text(e, "sqlite") || same_text(e, "sqlite3")
}

/// Whether an extension is that of a file that holds no text.
pub open spec fn binary_ext(e: Seq<char>) -> bool {
    image_ext(e) || document_ext(e) || archive_ext(e) || media_ext(e) || font_ext(e)
        || compiled_ext(e) || database_ext(e)
}

/// Whether a file holds no text, by its extension.
pub open spec fn binary_file(name: Seq<char>) -> bool {
    name.contains('.') && binary_ext(lowered(tail_of(name, '.')))
}

/// Whether a file holds no text, by its extension. A file without an extension,
/// or with an unknown one, may be text.
pub fn is_binary(name: &str) -> (r: bool)
    ensures
        r == binary_file(name@),
{
    if !has_char(name, '.') {
        return false;
    }
    let ext = lower_text(after_last(name, '.').as_str());
    let e = ext.as_str();
    is_image(e) || is_document(e) || is_archive(e) || is_media(e) || is_font(e) || is_compiled(e)
        || is_database(e)
}

/// Images, documents, archives, sound, video, fonts, compiled code and databases
/// hold no text, whatever is before the last dot.
pub proof fn law_binary_files_are_told_by_their_extension(stem: Seq<char>, e: Seq<char>)
    requires
        !e.contains('.'),
        lowered(e) == e,
    ensures
        e == "png"@ || e == "jpg"@ || e == "gif"@ || e == "pdf"@ || e == "docx"@ || e == "zip"@ || e
            == "gz"@ || e == "mp3"@ || e == "mp4"@ || e == "ttf"@ || e == "woff2"@ || e == "exe"@
            || e == "so"@ || e == "wasm"@ || e == "sqlite"@ ==> binary_file(stem + seq!['.'] + e),
        !binary_ext(e) ==> !binary_file(stem + seq!['.'] + e),
{
    let name = stem + seq!['.'] + e;
    assert(name[stem.len() as int] == '.');
    assert(name.contains('.'));
    lemma_extension(stem, e, name.len() as int);
    assert(name.skip((stem.len() + 1) as int) =~= e);
}

proof fn lemma_extension(stem: Seq<char>, e: Seq<char>, i: int)
    requires
        !e.contains('.'),
        stem.len() < i <= stem.len() + 1 + e.len(),
    ensures
        crate::text::tail_start(stem + seq!['.'] + e, '.', i) == stem.len() + 1,
    decreases i,
{
    let name = stem + seq!['.'] + e;
    if i > stem.len() + 1 {
        assert(name[i - 1] == e[i - stem.len() - 2]);
        assert(e.contains(e[i - stem.len() - 2]));
        lemma_extension(stem, e, i - 1);
    } else {
        assert(name[i - 1] == '.');
    }
}

/// A name without a dot is that of a text file.
pub proof fn law_a_name_without_extension_is_text(name: Seq<char>)
    requires
        !name.contains('.'),
    ensures
        !binary_file(name),
{
}

} // verus!
