//! Format dispatch: which extractor handles an uploaded file.
use vstd::prelude::*;
use crate::text::{chars_of, has_prefix, is_text, last_index, last_index_of, lowercase, lower_of,
    slice_chars, starts_with, string_of};

verus! {

/// The format of an uploaded file.
#[derive(Debug, Clone, PartialEq)]
pub enum FileType {
    Pdf,
    Image,
    Excel,
    Word,
    /// A format no extractor handles; holds the lowercased extension.
    Unknown(String),
}

/// The mathematical form of a [`FileType`].
pub ghost enum FileKind {
    Pdf,
    Image,
    Excel,
    Word,
    Unknown(Seq<char>),
}

impl View for FileType {
    type V = FileKind;

    open spec fn view(&self) -> FileKind {
        match self {
            FileType::Pdf => FileKind::Pdf,
            FileType::Image => FileKind::Image,
            FileType::Excel => FileKind::Excel,
            FileType::Word => FileKind::Word,
            FileType::Unknown(e) => FileKind::Unknown(e@),
        }
    }
}

/// The format that a declared MIME type names, if it names one.
pub open spec fn kind_of_mime(ct: Seq<char>) -> Option<FileKind> {
    if ct == "application/pdf"@ {
        Some(FileKind::Pdf)
    } else if ct == "application/vnd.openxmlformats-officedocument.spreadsheetml.sheet"@ || ct
        == "application/vnd.ms-excel"@ || ct == "text/csv"@ {
        Some(FileKind::Excel)
    } else if ct == "application/vnd.openxmlformats-officedocument.wordprocessingml.document"@
        || ct == "application/msword"@ {
        Some(FileKind::Word)
    } else if starts_with(ct, "image/"@) {
        Some(FileKind::Image)
    } else {
        None
    }
}

/// The format that a lowercased extension names.
pub open spec fn kind_of_extension(ext: Seq<char>) -> FileKind {
    if ext == "pdf"@ {
        FileKind::Pdf
    } else if ext == "png"@ || ext == "jpg"@ || ext == "jpeg"@ || ext == "tiff"@ || ext == "tif"@
        || ext == "bmp"@ || ext == "webp"@ || ext == "gif"@ {
        FileKind::Image
    } else if ext == "xlsx"@ || ext == "xls"@ || ext == "csv"@ || ext == "ods"@ {
        FileKind::Excel
    } else if ext == "docx"@ || ext == "doc"@ {
        FileKind::Word
    } else {
        FileKind::Unknown(ext)
    }
}

/// The last `/`-separated component of a file name.
pub open spec fn base_name(name: Seq<char>) -> Seq<char> {
    name.subrange(last_index_of(name, '/') + 1, name.len() as int)
}

/// The extension of a file name: what follows the last `.` of its last
/// component, where that `.` is not the component's first character; empty
/// where there is no such `.`.
pub open spec fn extension_of(name: Seq<char>) -> Seq<char> {
    let base = base_name(name);
    let dot = last_index_of(base, '.');
    if dot <= 0 {
        Seq::empty()
    } else {
        base.subrange(dot + 1, base.len() as int)
    }
}

/// The format of a file: its declared MIME type decides where it names a
/// format, otherwise its lowercased extension does.
pub open spec fn detect_kind(filename: Seq<char>, content_type: Seq<char>) -> FileKind {
    match kind_of_mime(content_type) {
        Some(k) => k,
        None => kind_of_extension(lower_of(extension_of(filename))),
    }
}

/// The extension of a file name, as [`extension_of`] defines it.
pub fn extension(filename: &str) -> (r: String)
    ensures
        r@ == extension_of(filename@),
{
    let name = chars_of(filename);
    proof {
        crate::text::lemma_last_index_of_bounds(name@, '/');
    }
    let nl = name.len();
    let start = match last_index(&name, '/') {
        Some(i) => {
            assert(i < nl);
            i + 1
        },
        None => 0,
    };
    let base = slice_chars(&name, start, name.len());
    proof {
        crate::text::lemma_last_index_of_bounds(base@, '.');
    }
    match last_index(&base, '.') {
        Some(d) => {
            if d == 0 {
                string_of(&Vec::new())
            } else {
                let e = slice_chars(&base, d + 1, base.len());
                string_of(&e)
            }
        },
        None => string_of(&Vec::new()),
    }
}

impl FileType {
    /// The format that a declared MIME type names, if it names one.
    pub fn from_content_type(content_type: &str) -> (r: Option<FileType>)
        ensures
            r matches Some(t) ==> kind_of_mime(content_type@) == Some(t@),
            r is None ==> kind_of_mime(content_type@) is None,
    {
        let ct = chars_of(content_type);
        if is_text(&ct, "application/pdf") {
            Some(FileType::Pdf)
        } else if is_text(&ct, "application/vnd.openxmlformats-officedocument.spreadsheetml.sheet")
            || is_text(&ct, "application/vnd.ms-excel") || is_text(&ct, "text/csv") {
            Some(FileType::Excel)
        } else if is_text(
            &ct,
            "application/vnd.openxmlformats-officedocument.wordprocessingml.document",
        ) || is_text(&ct, "application/msword") {
            Some(FileType::Word)
        } else if has_prefix(&ct, "image/") {
            Some(FileType::Image)
        } else {
            None
        }
    }

    /// The format that a lowercased extension names.
    pub fn from_extension(ext: &str) -> (r: FileType)
        ensures
            r@ == kind_of_extension(ext@),
    {
        let e = chars_of(ext);
        if is_text(&e, "pdf") {
            FileType::Pdf
        } else if is_text(&e, "png") || is_text(&e, "jpg") || is_text(&e, "jpeg") || is_text(
            &e,
            "tiff",
        ) || is_text(&e, "tif") || is_text(&e, "bmp") || is_text(&e, "webp") || is_text(
            &e,
            "gif",
        ) {
            FileType::Image
        } else if is_text(&e, "xlsx") || is_text(&e, "xls") || is_text(&e, "csv") || is_text(
            &e,
            "ods",
        ) {
            FileType::Excel
        } else if is_text(&e, "docx") || is_text(&e, "doc") {
            FileType::Word
        } else {
            FileType::Unknown(string_of(&e))
        }
    }

    /// Detect the format of a file from its name and declared MIME type.
    pub fn detect(filename: &str, content_type: &str) -> (r: FileType)
        ensures
            r@ == detect_kind(filename@, content_type@),
    {
        match FileType::from_content_type(content_type) {
            Some(t) => t,
            None => {
                let ext = extension(filename);
                let lower = lowercase(ext.as_str());
                FileType::from_extension(lower.as_str())
            },
        }
    }

    /// A short human-readable name of the format.
    pub fn label(&self) -> (r: &'static str)
        ensures
            r@ == label_of(self@),
    {
        match self {
            FileType::Pdf => "PDF",
            FileType::Image => "Image",
            FileType::Excel => "Excel",
            FileType::Word => "Word",
            FileType::Unknown(_) => "Unknown",
        }
    }
}

/// The human-readable name of a format.
pub open spec fn label_of(k: FileKind) -> Seq<char> {
    match k {
        FileKind::Pdf => "PDF"@,
        FileKind::Image => "Image"@,
        FileKind::Excel => "Excel"@,
        FileKind::Word => "Word"@,
        FileKind::Unknown(_) => "Unknown"@,
    }
}

} // verus!
