//! The client: configuration, offline verification over stored or given
//! receipts, and the pure string rules the transfer layer uses.
//!
//! Everything that talks to the network or the file system lives with the
//! caller; this type owns the configuration and the decisions.

use vstd::prelude::*;

use crate::errors::AlureError;
use crate::outside::chars_of;
use crate::outside::string_of;
use crate::receipt::opt_view;
use crate::receipt::spec_parse;
use crate::receipt::spec_validate;
use crate::receipt::invalid_verdict;
use crate::receipt::ReceiptValidationResult;
use crate::receipt::ReceiptVerifier;
use crate::receipt::VerdictView;
use crate::record_doc::chars_eq;
use crate::storage::FileStorage;
use crate::storage::ReceiptRecord;
use crate::errors::ReceiptError;
use vstd::slice::slice_subrange;

verus! {

/// What a successful activation call reports back.
#[derive(Debug, Clone)]
pub struct ActivateResponse {
    pub receipt: String,
    pub activation_id: String,
    pub expires_at: Option<String>,
    pub grace_period_days: i64,
    pub server_time: String,
}

/// The input with its trailing slashes dropped.
pub open spec fn trim_trailing_slashes(s: Seq<char>) -> Seq<char>
    decreases s.len(),
{
    if s.len() > 0 && s[s.len() - 1] == '/' {
        trim_trailing_slashes(s.drop_last())
    } else {
        s
    }
}

/// The project a parsed receipt names, if any; `None` too where the token
/// does not parse.
pub open spec fn spec_project_id(t: Seq<char>) -> Option<Seq<char>> {
    match spec_parse(t) {
        Ok(p) => p.project_id,
        Err(_) => None,
    }
}

/// The verdict reported when no receipt is given and none is stored.
pub open spec fn missing_receipt_verdict() -> VerdictView {
    invalid_verdict("missing_receipt"@)
}

/// A configured client: service base URL, receipt store, verifier and
/// request timeout.
#[derive(Debug, Clone)]
pub struct AlureClient {
    base_url: String,
    storage: FileStorage,
    verifier: ReceiptVerifier,
    timeout_seconds: u64,
}

impl AlureClient {
    /// The service base URL, without trailing slashes.
    pub closed spec fn base_url_view(&self) -> Seq<char> {
        self.base_url@
    }

    /// The configured request timeout, in seconds.
    pub closed spec fn timeout_view(&self) -> u64 {
        self.timeout_seconds
    }

    /// The verifier's key material.
    pub closed spec fn verifier_pem(&self) -> Option<Seq<char>> {
        self.verifier.spec_pem()
    }

    /// The receipt store.
    pub closed spec fn spec_storage(&self) -> FileStorage {
        self.storage
    }

    /// Configures a client. The base URL defaults to the local service and
    /// loses its trailing slashes; the timeout defaults to ten seconds; the
    /// store root defaults as [`FileStorage::new`] says.
    pub fn new(
        base_url: Option<String>,
        storage_dir: Option<String>,
        public_key_pem: Option<String>,
        timeout_seconds: Option<u64>,
    ) -> (r: Result<AlureClient, AlureError>)
        ensures
            r matches Ok(c) ==> c.base_url_view() == trim_trailing_slashes(
                match base_url {
                    Some(u) => u@,
                    None => "http://localhost:3000/api/v1"@,
                },
            ),
            r matches Ok(c) ==> c.timeout_view() == (match timeout_seconds {
                Some(t) => t,
                None => 10u64,
            }),
            r matches Ok(c) ==> c.verifier_pem() == opt_view(public_key_pem),
            r matches Ok(c) ==> (storage_dir matches Some(d) ==> c.spec_storage().base_view()
                == d@),
            storage_dir is Some ==> r is Ok,
            storage_dir is None ==> (r matches Ok(c) ==> exists|home: Seq<char>|
                c.spec_storage().base_view() == home + "/.alure"@),
            r is Err ==> storage_dir is None,
            r matches Err(e) ==> (e matches AlureError::Storage(s) && s.0@
                == "missing_home_dir"@),
    {
        let base = match base_url {
            Some(u) => u,
            None => "http://localhost:3000/api/v1".to_owned(),
        };
        let storage = match FileStorage::new(storage_dir) {
            Ok(storage) => storage,
            Err(e) => {
                return Err(AlureError::Storage(e));
            },
        };
        let verifier = ReceiptVerifier::new(public_key_pem);
        let timeout = match timeout_seconds {
            Some(t) => t,
            None => 10,
        };
        let mut chars = chars_of(base.as_str());
        loop
            invariant
                trim_trailing_slashes(base@) == trim_trailing_slashes(chars@),
            ensures
                chars@ == trim_trailing_slashes(base@),
            decreases chars@.len(),
        {
            let n = chars.len();
            if !(n > 0 && chars[n - 1] == '/') {
                proof {
                    assert(trim_trailing_slashes(chars@) == chars@);
                }
                break;
            }
            let ghost pre = chars@;
            chars.pop();
            proof {
                assert(chars@ =~= pre.drop_last());
            }
        }
        let trimmed = string_of(chars.as_slice());
        Ok(AlureClient { base_url: trimmed, storage, verifier, timeout_seconds: timeout })
    }

    /// The service base URL.
    pub fn base_url(&self) -> (r: &str)
        ensures
            r@ == self.base_url_view(),
    {
        self.base_url.as_str()
    }

    /// The configured request timeout, in seconds.
    pub fn timeout_seconds(&self) -> (r: u64)
        ensures
            r == self.timeout_view(),
    {
        self.timeout_seconds
    }

    /// The receipt store.
    pub fn storage(&self) -> (r: &FileStorage)
        ensures
            r == self.spec_storage(),
    {
        &self.storage
    }

    /// The receipt verifier.
    pub fn receipt_verifier(&self) -> (r: &ReceiptVerifier)
        ensures
            r.spec_pem() == self.verifier_pem(),
    {
        &self.verifier
    }

    /// Validates a receipt offline at the current wall-clock time: the given
    /// one, or — where token or device id is missing — the stored record the
    /// caller loaded; with neither, the missing-receipt verdict. Never
    /// fails.
    pub fn verify_offline(
        &self,
        receipt: Option<String>,
        device_id: Option<String>,
        stored: Option<ReceiptRecord>,
        verify_signature: bool,
    ) -> (r: Result<ReceiptValidationResult, AlureError>)
        ensures
            r is Ok,
            ({
                let res = r->Ok_0;
                match (receipt, device_id) {
                    (Some(rc), Some(d)) => exists|t: int|
                        res@ == spec_validate(self.verifier_pem(), rc@, d@, t, verify_signature),
                    _ => match stored {
                        Some(rec) => exists|t: int|
                            res@ == spec_validate(
                                self.verifier_pem(),
                                rec.receipt@,
                                rec.device_id@,
                                t,
                                verify_signature,
                            ),
                        None => res@ == missing_receipt_verdict(),
                    },
                }
            }),
    {
        let (rc, dev) = match (receipt, device_id) {
            (Some(rc), Some(d)) => (rc, d),
            _ => match stored {
                Some(rec) => (rec.receipt, rec.device_id),
                None => {
                    return Ok(ReceiptValidationResult {
                        valid: false,
                        reason: Some("missing_receipt".to_owned()),
                        expires_at: None,
                        grace_period_days: None,
                    });
                },
            },
        };
        Ok(self.verifier.validate_offline(rc.as_str(), dev.as_str(), None, verify_signature))
    }

    /// The project named by the given receipt, or by the stored record the
    /// caller loaded; `None` where there is neither, or where the token does
    /// not parse. Never fails.
    pub fn project_id_from_receipt(
        &self,
        receipt: Option<String>,
        stored: Option<ReceiptRecord>,
    ) -> (r: Result<Option<String>, AlureError>)
        ensures
            r is Ok,
            ({
                let tok = match receipt {
                    Some(rc) => Some(rc@),
                    None => match stored {
                        Some(rec) => Some(rec.receipt@),
                        None => None,
                    },
                };
                match tok {
                    Some(t) => opt_view(r->Ok_0) == spec_project_id(t),
                    None => r->Ok_0 is None,
                }
            }),
    {
        let rc = match receipt {
            Some(rc) => rc,
            None => match stored {
                Some(rec) => rec.receipt,
                None => {
                    return Ok(None);
                },
            },
        };
        match self.extract_project_id(rc.as_str()) {
            Ok(p) => Ok(p),
            Err(_) => Ok(None),
        }
    }

    /// The project a parseable receipt names.
    pub fn extract_project_id(&self, receipt: &str) -> (r: Result<Option<String>, ReceiptError>)
        ensures
            match spec_parse(receipt@) {
                Ok(p) => r matches Ok(id) && opt_view(id) == p.project_id,
                Err(code) => r matches Err(e) && e.0@ == code,
            },
    {
        match self.verifier.parse(receipt) {
            Ok(payload) => Ok(payload.project_id),
            Err(e) => Err(e),
        }
    }
}

/// Index of the first `filename=` marker at or after `i`, or a negative
/// value where there is none.
pub open spec fn find_marker(s: Seq<char>, i: int) -> int
    decreases s.len() - i,
{
    if i < 0 || i + 9 > s.len() {
        -1
    } else if s.subrange(i, i + 9) == "filename="@ {
        i
    } else {
        find_marker(s, i + 1)
    }
}

/// The input with its leading double quotes dropped.
pub open spec fn trim_lead_quotes(s: Seq<char>) -> Seq<char>
    decreases s.len(),
{
    if s.len() > 0 && s[0] == '"' {
        trim_lead_quotes(s.drop_first())
    } else {
        s
    }
}

/// The input with its trailing double quotes dropped.
pub open spec fn trim_trail_quotes(s: Seq<char>) -> Seq<char>
    decreases s.len(),
{
    if s.len() > 0 && s[s.len() - 1] == '"' {
        trim_trail_quotes(s.drop_last())
    } else {
        s
    }
}

/// What `extract_filename` returns: everything after the first `filename=`,
/// unquoted; `None` where no marker occurs.
pub open spec fn spec_extract_filename(s: Seq<char>) -> Option<Seq<char>> {
    let i = find_marker(s, 0);
    if i < 0 {
        None
    } else {
        Some(trim_lead_quotes(trim_trail_quotes(s.skip(i + 9))))
    }
}

/// The filename a `Content-Disposition` header carries, with any double
/// quotes around it dropped.
pub fn extract_filename(content_disposition: &str) -> (r: Option<String>)
    ensures
        match spec_extract_filename(content_disposition@) {
            Some(f) => r matches Some(x) && x@ == f,
            None => r is None,
        },
{
    let chars = chars_of(content_disposition);
    let n = chars.len();
    let m = chars_of("filename=");
    proof {
        reveal_strlit("filename=");
        assert(m@.len() == 9);
    }
    if n < 9 {
        proof {
            assert(find_marker(chars@, 0) == -1);
        }
        return None;
    }
    let mut i: usize = 0;
    while i <= n - 9
        invariant
            0 <= i <= n,
            n >= 9,
            n == chars@.len(),
            chars@ == content_disposition@,
            m@ == "filename="@,
            m@.len() == 9,
            find_marker(chars@, 0) == find_marker(chars@, i as int),
        decreases n - i,
    {
        if chars_eq(slice_subrange(chars.as_slice(), i, i + 9), m.as_slice()) {
            proof {
                assert(chars@.subrange(i as int, i + 9) == m@);
                assert(find_marker(chars@, i as int) == i);
            }
            let tail = slice_subrange(chars.as_slice(), i + 9, n);
            proof {
                assert(tail@ =~= chars@.skip(i + 9));
            }
            let t1 = trim_trail(tail);
            let t2 = trim_lead(t1);
            proof {
                assert(t2@ == trim_lead_quotes(trim_trail_quotes(chars@.skip(i + 9))));
                assert(find_marker(content_disposition@, 0) == i as int);
                assert(spec_extract_filename(content_disposition@) == Some(t2@));
            }
            return Some(string_of(t2));
        }
        proof {
            assert(chars@.subrange(i as int, i + 9) != m@);
            assert(find_marker(chars@, i as int) == find_marker(chars@, i + 1));
        }
        i = i + 1;
    }
    proof {
        assert(find_marker(chars@, i as int) == -1);
    }
    None
}

/// The slice with its leading double quotes dropped.
fn trim_lead<'a>(s: &'a [char]) -> (r: &'a [char])
    ensures
        r@ == trim_lead_quotes(s@),
{
    let n = s.len();
    let mut i: usize = 0;
    proof {
        assert(s@.skip(0) =~= s@);
    }
    while i < n && s[i] == '"'
        invariant
            i <= n,
            n == s@.len(),
            trim_lead_quotes(s@) == trim_lead_quotes(s@.skip(i as int)),
        decreases n - i,
    {
        proof {
            assert(s@.skip(i as int)[0] == s@[i as int]);
            assert(s@.skip(i as int).drop_first() =~= s@.skip(i + 1));
        }
        i = i + 1;
    }
    proof {
        let cur = s@.skip(i as int);
        if i < n {
            assert(cur[0] == s@[i as int]);
        }
        assert(trim_lead_quotes(cur) == cur);
    }
    slice_subrange(s, i, n)
}

/// The slice with its trailing double quotes dropped.
fn trim_trail<'a>(s: &'a [char]) -> (r: &'a [char])
    ensures
        r@ == trim_trail_quotes(s@),
{
    let mut j = s.len();
    proof {
        assert(s@.take(s@.len() as int) =~= s@);
    }
    while j > 0 && s[j - 1] == '"'
        invariant
            j <= s@.len(),
            trim_trail_quotes(s@) == trim_trail_quotes(s@.take(j as int)),
        decreases j,
    {
        proof {
            let cur = s@.take(j as int);
            assert(cur[j - 1] == s@[j - 1]);
            assert(cur.drop_last() =~= s@.take(j - 1));
        }
        j = j - 1;
    }
    proof {
        let cur = s@.take(j as int);
        if j > 0 {
            assert(cur[j - 1] == s@[j - 1]);
        }
        assert(trim_trail_quotes(cur) == cur);
    }
    slice_subrange(s, 0, j)
}

} // verus!
