//! The single-record receipt store: its record, its paths, and the pure
//! half of loading.
//!
//! The store owns one JSON document at `<root>/receipt.json`. Rendering a
//! record to that document and reading one back are pure functions (in
//! [`crate::record_doc`]); the file system calls around them live with the
//! caller, which hands content in and out as strings.

use vstd::prelude::*;

use crate::errors::StorageError;
use crate::outside::home_dir_string;
use crate::record_doc::decode_record;
use crate::record_doc::spec_decode_record;
use vstd::string::StringExecFns;

verus! {

/// The one persisted receipt record. Saving replaces the prior record
/// wholesale; the two optional fields may be absent.
#[derive(Debug, Clone, PartialEq)]
pub struct ReceiptRecord {
    pub receipt: String,
    pub device_id: String,
    pub activation_id: Option<String>,
    pub project_id: Option<String>,
}

/// Mathematical view of [`ReceiptRecord`].
#[verifier::ext_equal]
pub struct RecordView {
    pub receipt: Seq<char>,
    pub device_id: Seq<char>,
    pub activation_id: Option<Seq<char>>,
    pub project_id: Option<Seq<char>>,
}

impl View for ReceiptRecord {
    type V = RecordView;

    open spec fn view(&self) -> RecordView {
        RecordView {
            receipt: self.receipt@,
            device_id: self.device_id@,
            activation_id: crate::receipt::opt_view(self.activation_id),
            project_id: crate::receipt::opt_view(self.project_id),
        }
    }
}

/// Locates the store: a root directory, and the fixed receipt file inside
/// it. The store does not touch the file system; callers create the root and
/// read or write the files this type names.
#[derive(Debug, Clone)]
pub struct FileStorage {
    base_dir: String,
    receipt_path: String,
}

impl FileStorage {
    /// The root directory.
    pub closed spec fn base_view(&self) -> Seq<char> {
        self.base_dir@
    }

    /// The path of the receipt file.
    pub closed spec fn receipt_path_view(&self) -> Seq<char> {
        self.receipt_path@
    }

    /// Scopes a store to `base_dir`, or to `.alure` under the user's home
    /// directory where none is given; fails with `missing_home_dir` where
    /// the platform reports no home.
    pub fn new(base_dir: Option<String>) -> (r: Result<FileStorage, StorageError>)
        ensures
            r matches Ok(s) ==> s.receipt_path_view() == s.base_view() + "/receipt.json"@,
            base_dir matches Some(d) ==> r matches Ok(s) && s.base_view() == d@,
            base_dir is None ==> (r matches Ok(s) ==> exists|home: Seq<char>|
                s.base_view() == home + "/.alure"@),
            base_dir is None ==> (r matches Err(e) ==> e.0@ == "missing_home_dir"@),
    {
        let dir = match base_dir {
            Some(path) => path,
            None => match home_dir_string() {
                Some(home) => {
                    let d = default_root(home.as_str());
                    proof {
                        assert(exists|h: Seq<char>| d@ == h + "/.alure"@) by {
                            assert(d@ == home@ + "/.alure"@);
                        }
                    }
                    d
                },
                None => {
                    return Err(StorageError::new("missing_home_dir"));
                },
            },
        };
        let receipt_path = dir.clone().concat("/receipt.json");
        Ok(FileStorage { base_dir: dir, receipt_path })
    }

    /// The root directory.
    pub fn base_dir(&self) -> (r: &str)
        ensures
            r@ == self.base_view(),
    {
        self.base_dir.as_str()
    }

    /// Where the receipt file lives.
    pub fn receipts_path(&self) -> (r: &str)
        ensures
            r@ == self.receipt_path_view(),
    {
        self.receipt_path.as_str()
    }

    /// Where downloaded assets live: the `downloads` subdirectory of the
    /// root. Callers create it before writing into it.
    pub fn downloads_path(&self) -> (r: String)
        ensures
            r@ == self.base_view() + "/downloads"@,
    {
        self.base_dir.clone().concat("/downloads")
    }
}

/// The default store root under a home directory.
fn default_root(home: &str) -> (r: String)
    ensures
        r@ == home@ + "/.alure"@,
{
    home.to_owned().concat("/.alure")
}

/// The pure half of loading: `None` content (no receipt file yet) is the
/// normal empty state, not an error; present content either decodes — with
/// absent fields defaulted — or fails with `parse_failed`.
pub fn load_from_content(content: Option<&str>) -> (r: Result<
    Option<ReceiptRecord>,
    StorageError,
>)
    ensures
        content is None ==> (r matches Ok(rec) && rec is None),
        content matches Some(c) ==> match spec_decode_record(c@) {
            Some(rv) => r matches Ok(rec) && rec matches Some(rec) && rec@ == rv,
            None => r matches Err(e) && e.0@ == "parse_failed"@,
        },
{
    match content {
        None => Ok(None),
        Some(c) => match decode_record(c) {
            Ok(rec) => Ok(Some(rec)),
            Err(e) => Err(e),
        },
    }
}

} // verus!
