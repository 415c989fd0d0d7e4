//! The error type every tool reports, with its stable machine-readable
//! `kind` and its human-readable message.

use vstd::prelude::*;

verus! {

/// Failure of a tool operation. The webview branches on [`AppError::kind`]
/// and shows [`AppError::message`].
#[derive(Clone, Debug, PartialEq, Eq)]
pub enum AppError {
    FileNotFound { path: String },
    PermissionDenied { path: String },
    UnsupportedFormat { detail: String },
    ProcessingFailed { detail: String },
    Encrypted,
    Cancelled,
}

pub type AppResult<T> = Result<T, AppError>;

pub open spec fn kind_of(e: AppError) -> Seq<char> {
    match e {
        AppError::FileNotFound { .. } => seq!['F', 'i', 'l', 'e', 'N', 'o', 't', 'F', 'o', 'u', 'n', 'd'],
        AppError::PermissionDenied { .. } => seq![
            'P', 'e', 'r', 'm', 'i', 's', 's', 'i', 'o', 'n', 'D', 'e', 'n', 'i', 'e', 'd',
        ],
        AppError::UnsupportedFormat { .. } => seq![
            'U', 'n', 's', 'u', 'p', 'p', 'o', 'r', 't', 'e', 'd', 'F', 'o', 'r', 'm', 'a', 't',
        ],
        AppError::ProcessingFailed { .. } => seq![
            'P', 'r', 'o', 'c', 'e', 's', 's', 'i', 'n', 'g', 'F', 'a', 'i', 'l', 'e', 'd',
        ],
        AppError::Encrypted => seq!['E', 'n', 'c', 'r', 'y', 'p', 't', 'e', 'd'],
        AppError::Cancelled => seq!['C', 'a', 'n', 'c', 'e', 'l', 'l', 'e', 'd'],
    }
}

pub open spec fn message_of(e: AppError) -> Seq<char> {
    match e {
        AppError::FileNotFound { path } => seq![
            'f', 'i', 'l', 'e', ' ', 'n', 'o', 't', ' ', 'f', 'o', 'u', 'n', 'd', ':', ' ',
        ] + path@,
        AppError::PermissionDenied { path } => seq![
            'p', 'e', 'r', 'm', 'i', 's', 's', 'i', 'o', 'n', ' ', 'd', 'e', 'n', 'i', 'e', 'd',
            ':', ' ',
        ] + path@,
        AppError::UnsupportedFormat { detail } => seq![
            'u', 'n', 's', 'u', 'p', 'p', 'o', 'r', 't', 'e', 'd', ' ', 'f', 'o', 'r', 'm', 'a',
            't', ':', ' ',
        ] + detail@,
        AppError::ProcessingFailed { detail } => seq![
            'p', 'r', 'o', 'c', 'e', 's', 's', 'i', 'n', 'g', ' ', 'f', 'a', 'i', 'l', 'e', 'd',
            ':', ' ',
        ] + detail@,
        AppError::Encrypted => seq![
            'd', 'o', 'c', 'u', 'm', 'e', 'n', 't', ' ', 'i', 's', ' ', 'e', 'n', 'c', 'r', 'y',
            'p', 't', 'e', 'd',
        ],
        AppError::Cancelled => seq![
            'o', 'p', 'e', 'r', 'a', 't', 'i', 'o', 'n', ' ', 'c', 'a', 'n', 'c', 'e', 'l', 'l',
            'e', 'd',
        ],
    }
}

impl AppError {
    /// Stable variant name for the webview to branch on.
    pub fn kind(&self) -> (k: &'static str)
        ensures
            k@ == kind_of(*self),
    {
        match self {
            AppError::FileNotFound { .. } => {
                proof {
                    reveal_strlit("FileNotFound");
                }
                "FileNotFound"
            },
            AppError::PermissionDenied { .. } => {
                proof {
                    reveal_strlit("PermissionDenied");
                }
                "PermissionDenied"
            },
            AppError::UnsupportedFormat { .. } => {
                proof {
                    reveal_strlit("UnsupportedFormat");
                }
                "UnsupportedFormat"
            },
            AppError::ProcessingFailed { .. } => {
                proof {
                    reveal_strlit("ProcessingFailed");
                }
                "ProcessingFailed"
            },
            AppError::Encrypted => {
                proof {
                    reveal_strlit("Encrypted");
                }
                "Encrypted"
            },
            AppError::Cancelled => {
                proof {
                    reveal_strlit("Cancelled");
                }
                "Cancelled"
            },
        }
    }

    /// Human-readable message (what `Display` prints).
    pub fn message(&self) -> (m: String)
        ensures
            m@ == message_of(*self),
    {
        let mut m = String::new();
        match self {
            AppError::FileNotFound { path } => {
                m.append("file not found: ");
                m.append(path.as_str());
                proof {
                    reveal_strlit("file not found: ");
                }
            },
            AppError::PermissionDenied { path } => {
                m.append("permission denied: ");
                m.append(path.as_str());
                proof {
                    reveal_strlit("permission denied: ");
                }
            },
            AppError::UnsupportedFormat { detail } => {
                m.append("unsupported format: ");
                m.append(detail.as_str());
                proof {
                    reveal_strlit("unsupported format: ");
                }
            },
            AppError::ProcessingFailed { detail } => {
                m.append("processing failed: ");
                m.append(detail.as_str());
                proof {
                    reveal_strlit("processing failed: ");
                }
            },
            AppError::Encrypted => {
                m.append("document is encrypted");
                proof {
                    reveal_strlit("document is encrypted");
                }
            },
            AppError::Cancelled => {
                m.append("operation cancelled");
                proof {
                    reveal_strlit("operation cancelled");
                }
            },
        }
        assert(m@ =~= message_of(*self));
        m
    }
}

/// Tag of a variant, for comparing variants regardless of payload.
pub open spec fn variant_index(e: AppError) -> int {
    match e {
        AppError::FileNotFound { .. } => 0,
        AppError::PermissionDenied { .. } => 1,
        AppError::UnsupportedFormat { .. } => 2,
        AppError::ProcessingFailed { .. } => 3,
        AppError::Encrypted => 4,
        AppError::Cancelled => 5,
    }
}

/// The `kind` of an error names its variant: two errors have the same
/// kind exactly when they are the same variant.
pub proof fn lemma_kind_identifies_variant(a: AppError, b: AppError)
    ensures
        (kind_of(a) == kind_of(b)) <==> (variant_index(a) == variant_index(b)),
{
    if variant_index(a) != variant_index(b) {
        let ka = kind_of(a);
        let kb = kind_of(b);
        if ka.len() == kb.len() {
            assert(ka[0] != kb[0] || ka[1] != kb[1]);
        }
        assert(ka != kb);
    }
}

/// Map a filesystem failure, classified by the caller, to an `AppError`:
/// a missing path is `FileNotFound`, a refused one `PermissionDenied`, and
/// anything else `ProcessingFailed` with `"<path>: <reason>"` as detail.
pub fn io_to_app_err(path: &str, not_found: bool, permission_denied: bool, reason: &str) -> (e:
    AppError)
    ensures
        not_found ==> (e is FileNotFound && e->FileNotFound_path@ == path@),
        !not_found && permission_denied ==> (e is PermissionDenied && e->PermissionDenied_path@ == path@),
        !not_found && !permission_denied ==> (e is ProcessingFailed && e->ProcessingFailed_detail@
            == path@ + seq![':', ' '] + reason@),
{
    if not_found {
        AppError::FileNotFound { path: path.to_owned() }
    } else if permission_denied {
        AppError::PermissionDenied { path: path.to_owned() }
    } else {
        let mut d = path.to_owned();
        d.append(": ");
        d.append(reason);
        proof {
            reveal_strlit(": ");
        }
        assert(d@ =~= path@ + seq![':', ' '] + reason@);
        AppError::ProcessingFailed { detail: d }
    }
}

} // verus!
