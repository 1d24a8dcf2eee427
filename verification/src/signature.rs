//! Content-signature classification of files.
//!
//! A file is classified as a binary event log by its leading bytes alone,
//! never by its extension. The classifier is a value of [`SignatureRule`],
//! so further signatures can be registered without touching the scan logic.

use vstd::prelude::*;

verus! {

/// The leading byte sequence that identifies a binary event-log file.
pub open spec fn spec_evtx_magic() -> Seq<u8> {
    seq![0x45u8, 0x6Cu8, 0x66u8, 0x46u8, 0x69u8, 0x6Cu8, 0x65u8]
}

/// A content signature: a buffer matches when its leading bytes equal `magic`.
pub struct SignatureRule {
    pub magic: Vec<u8>,
}

/// Whether `buf` begins with the byte sequence `magic`.
pub open spec fn spec_sig_matches(magic: Seq<u8>, buf: Seq<u8>) -> bool {
    buf.len() >= magic.len() && buf.take(magic.len() as int) == magic
}

impl SignatureRule {
    /// Whether a buffer of leading bytes matches this rule.
    pub open spec fn spec_matches(self, buf: Seq<u8>) -> bool {
        spec_sig_matches(self.magic@, buf)
    }

    /// Classifies a buffer of leading bytes.
    pub fn matches(&self, buf: &[u8]) -> (r: bool)
        ensures
            r == self.spec_matches(buf@),
    {
        let m = self.magic.len();
        if buf.len() < m {
            return false;
        }
        let mut i: usize = 0;
        while i < m
            invariant
                0 <= i <= m == self.magic@.len(),
                buf@.len() >= m,
                forall|k: int| 0 <= k < i ==> buf@[k] == self.magic@[k],
            decreases m - i,
        {
            if buf[i] != self.magic[i] {
                proof {
                    assert(buf@.take(m as int)[i as int] != self.magic@[i as int]);
                }
                return false;
            }
            i += 1;
        }
        proof {
            assert(buf@.take(m as int) =~= self.magic@);
        }
        true
    }
}

/// Builds the classifier for binary event-log files.
pub fn evtx_signature() -> (r: SignatureRule)
    ensures
        r.magic@ == spec_evtx_magic(),
{
    let mut v: Vec<u8> = Vec::new();
    v.push(0x45);
    v.push(0x6C);
    v.push(0x66);
    v.push(0x46);
    v.push(0x69);
    v.push(0x6C);
    v.push(0x65);
    proof {
        assert(v@ =~= spec_evtx_magic());
    }
    SignatureRule { magic: v }
}

/// Classifies a buffer against the event-log signature.
pub fn evtx_matcher(buf: &[u8]) -> (r: bool)
    ensures
        r == spec_sig_matches(spec_evtx_magic(), buf@),
{
    let rule = evtx_signature();
    rule.matches(buf)
}

/// A buffer is classified as an event log exactly when it is at least seven
/// bytes long and starts with the magic byte sequence; trailing bytes never
/// matter, and no buffer that does not start with the sequence is accepted.
pub proof fn lemma_sniffer_exact(buf: Seq<u8>)
    ensures
        spec_sig_matches(spec_evtx_magic(), buf) <==> (buf.len() >= 7 && buf.take(7)
            == spec_evtx_magic()),
{
    assert(spec_evtx_magic().len() == 7);
}

} // verus!
