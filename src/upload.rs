//! Acceptance of an uploaded proof from a multipart form.
use vstd::prelude::*;

verus! {

/// The most bytes of an uploaded file that are read.
pub const SIZE_LIMIT: usize = 32768;

/// Why an upload was refused.
#[derive(Clone, Copy, Debug, PartialEq, Eq, Structural)]
pub enum UploadError {
    NoContentType,
    NoBoundary,
    Malformed,
    Missing,
}

impl UploadError {
    /// The message shown for this refusal.
    pub fn message(&self) -> (r: &'static str)
        ensures
            r@ == self.text(),
    {
        match self {
            UploadError::NoContentType => "no Content-Type in request",
            UploadError::NoBoundary => "no boundary= in Content-Type",
            UploadError::Malformed => "malformed multipart data",
            UploadError::Missing => "missing multipart data",
        }
    }

    pub open spec fn text(self) -> Seq<char> {
        match self {
            UploadError::NoContentType => "no Content-Type in request"@,
            UploadError::NoBoundary => "no boundary= in Content-Type"@,
            UploadError::Malformed => "malformed multipart data"@,
            UploadError::Missing => "missing multipart data"@,
        }
    }
}

/// `pat` occurs in `s` starting at position `i`.
pub open spec fn occurs_at(s: Seq<char>, pat: Seq<char>, i: int) -> bool {
    0 <= i && i + pat.len() <= s.len() && s.subrange(i, i + pat.len()) == pat
}

/// `pat` occurs in `s` at position `i` and nowhere before it.
pub open spec fn first_at(s: Seq<char>, pat: Seq<char>, i: int) -> bool {
    occurs_at(s, pat, i) && forall|j: int| 0 <= j < i ==> !occurs_at(s, pat, j)
}

/// What the boundary search owes on the header `ct`: the text after the first
/// `boundary=`, or `NoBoundary` exactly where there is none.
pub open spec fn boundary_result(ct: Seq<char>, r: Result<Seq<char>, UploadError>) -> bool {
    match r {
        Ok(b) => exists|i: int|
            #![trigger first_at(ct, "boundary="@, i)]
            first_at(ct, "boundary="@, i) && b == ct.subrange(i + 9, ct.len() as int),
        Err(e) => e == UploadError::NoBoundary && forall|i: int| !occurs_at(ct, "boundary="@, i),
    }
}

/// The boundary that a Content-Type header names: what follows the first
/// `boundary=` in it.
pub fn boundary_of(content_type: Option<&str>) -> (r: Result<String, UploadError>)
    ensures
        match content_type {
            None => r == Err::<String, UploadError>(UploadError::NoContentType),
            Some(ct) => boundary_result(
                ct@,
                match r {
                    Ok(b) => Ok(b@),
                    Err(e) => Err(e),
                },
            ),
        },
{
    let ct = match content_type {
        Some(ct) => ct,
        None => {
            return Err(UploadError::NoContentType);
        },
    };
    let pat = "boundary=";
    proof {
        reveal_strlit("boundary=");
    }
    let n = ct.unicode_len();
    let m: usize = 9;
    assert(pat@.len() == m);
    let mut i: usize = 0;
    while m <= n && i <= n - m
        invariant
            content_type == Some(ct),
            n == ct@.len(),
            m == 9,
            m == pat@.len(),
            pat@ == "boundary="@,
            forall|j: int| 0 <= j < i ==> !occurs_at(ct@, pat@, j),
        decreases n - i,
    {
        let mut k: usize = 0;
        let mut same = true;
        while k < m && same
            invariant
                i + m <= n == ct@.len(),
                m == pat@.len(),
                k <= m,
                same <==> forall|t: int| 0 <= t < k ==> ct@[i + t] == pat@[t],
            decreases m - k,
        {
            if ct.get_char(i + k) != pat.get_char(k) {
                same = false;
            }
            k = k + 1;
        }
        if same {
            assert(ct@.subrange(i as int, i + m) =~= pat@);
            assert(occurs_at(ct@, pat@, i as int));
            let b = String::from_str(ct.substring_char(i + m, n));
            assert(first_at(ct@, "boundary="@, i as int));
            let r: Result<String, UploadError> = Ok(b);
            return r;
        }
        assert(!occurs_at(ct@, pat@, i as int)) by {
            let t = choose|t: int| 0 <= t < k && ct@[i + t] != pat@[t];
            if occurs_at(ct@, pat@, i as int) {
                assert(ct@.subrange(i as int, i + m)[t] == ct@[i + t]);
            }
        }
        i = i + 1;
    }
    assert forall|j: int| !occurs_at(ct@, pat@, j) by {
        if j >= i {
            assert(j + pat@.len() > ct@.len());
        }
    }
    Err(UploadError::NoBoundary)
}

/// The first part of a multipart body: its field name, and the bytes read
/// from it where it is a file.
pub struct UploadEntry {
    pub name: String,
    pub file: Option<Vec<u8>>,
}

/// An accepted upload: at most `SIZE_LIMIT` bytes of the file field.
pub struct MultipartStream {
    pub stream: Vec<u8>,
}

/// The kept bytes of an upload, or why it is refused.
pub open spec fn accepted(entry: Option<UploadEntry>) -> Result<Seq<u8>, UploadError> {
    match entry {
        None => Err(UploadError::Missing),
        Some(en) => if en.name@ != "file"@ {
            Err(UploadError::Malformed)
        } else {
            match en.file {
                None => Err(UploadError::Malformed),
                Some(f) => Ok(
                    if f@.len() <= SIZE_LIMIT {
                        f@
                    } else {
                        f@.take(SIZE_LIMIT as int)
                    },
                ),
            }
        },
    }
}

impl MultipartStream {
    /// Accepts the first entry of a multipart body where it is a file under the
    /// field name `file`, keeping at most `SIZE_LIMIT` of its bytes.
    pub fn from_entry(entry: Option<UploadEntry>) -> (r: Result<MultipartStream, UploadError>)
        ensures
            match r {
                Ok(s) => accepted(entry) == Ok::<Seq<u8>, UploadError>(s.stream@),
                Err(e) => accepted(entry) == Err::<Seq<u8>, UploadError>(e),
            },
    {
        let en = match entry {
            Some(en) => en,
            None => {
                return Err(UploadError::Missing);
            },
        };
        let field = String::from_str("file");
        if en.name != field {
            return Err(UploadError::Malformed);
        }
        match en.file {
            Some(f) => {
                let n: usize = if f.len() <= SIZE_LIMIT { f.len() } else { SIZE_LIMIT };
                let mut kept: Vec<u8> = Vec::new();
                let mut i: usize = 0;
                while i < n
                    invariant
                        n <= f@.len(),
                        i <= n,
                        kept@ == f@.take(i as int),
                    decreases n - i,
                {
                    kept.push(f[i]);
                    i = i + 1;
                    assert(kept@ =~= f@.take(i as int));
                }
                assert(f@.len() <= SIZE_LIMIT ==> f@.take(n as int) =~= f@);
                Ok(MultipartStream { stream: kept })
            },
            None => Err(UploadError::Malformed),
        }
    }
}

} // verus!
