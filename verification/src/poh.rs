//! The messages of the signature-checking service: plain values with the
//! accessors protocol buffers give each field.

use vstd::prelude::*;

verus! {

/// A request to check a message signed with an attached OpenPGP signature.
pub struct VerifyAttachedSignatureRequest {
    /// The signed message, with its signature attached.
    pub file_attached_signature: String,
}

impl VerifyAttachedSignatureRequest {
    /// A message with every field at its default: empty text, `false`.
    pub fn new() -> (m: VerifyAttachedSignatureRequest)
        ensures
            m.file_attached_signature@ == Seq::<char>::empty(),
    {
        VerifyAttachedSignatureRequest { file_attached_signature: String::new() }
    }

    /// The signed message, with its signature attached.
    pub fn get_file_attached_signature(&self) -> (s: &str)
        ensures
            s@ == self.file_attached_signature@,
    {
        self.file_attached_signature.as_str()
    }

    /// Empties the signed message with its attached signature.
    pub fn clear_file_attached_signature(&mut self)
        ensures
            final(self).file_attached_signature@ == Seq::<char>::empty(),
    {
        self.file_attached_signature = String::new();
    }

    /// Sets the signed message with its attached signature.
    pub fn set_file_attached_signature(&mut self, v: String)
        ensures
            final(self).file_attached_signature == v,
    {
        self.file_attached_signature = v;
    }

    /// A mutable reference to the signed message with its attached signature.
    pub fn mut_file_attached_signature(&mut self) -> (r: &mut String)
        ensures
            *r == old(self).file_attached_signature,
            final(self).file_attached_signature == *final(r),
    {
        &mut self.file_attached_signature
    }

    /// Takes out the signed message with its attached signature, leaving it empty.
    pub fn take_file_attached_signature(&mut self) -> (s: String)
        ensures
            s == old(self).file_attached_signature,
            final(self).file_attached_signature@ == Seq::<char>::empty(),
    {
        let mut s = String::new();
        core::mem::swap(&mut s, &mut self.file_attached_signature);
        s
    }

}

/// A call that works on the detached signature leaves the file contents
/// as they were.
pub open spec fn keeps_file_contents(before: VerifyDetachedSignatureRequest, after: VerifyDetachedSignatureRequest) -> bool {
    after.file_contents == before.file_contents
}

/// A call that works on the file contents leaves the detached signature as
/// it was.
pub open spec fn keeps_detached_signature(
    before: VerifyDetachedSignatureRequest,
    after: VerifyDetachedSignatureRequest,
) -> bool {
    after.detached_signature == before.detached_signature
}

/// A call that works on the info text leaves `valid` as it was.
pub open spec fn keeps_valid(before: VerifyResponse, after: VerifyResponse) -> bool {
    after.valid == before.valid
}

/// A call that works on `valid` leaves the info text as it was.
pub open spec fn keeps_info(before: VerifyResponse, after: VerifyResponse) -> bool {
    after.info == before.info
}

/// A request to check a file against a detached OpenPGP signature.
pub struct VerifyDetachedSignatureRequest {
    /// The detached signature.
    pub detached_signature: String,
    /// The signed file's contents.
    pub file_contents: String,
}

impl VerifyDetachedSignatureRequest {
    /// A message with every field at its default: empty text, `false`.
    pub fn new() -> (m: VerifyDetachedSignatureRequest)
        ensures
            m.detached_signature@ == Seq::<char>::empty(),
            m.file_contents@ == Seq::<char>::empty(),
    {
        VerifyDetachedSignatureRequest { detached_signature: String::new(), file_contents: String::new() }
    }

    /// The detached signature.
    pub fn get_detached_signature(&self) -> (s: &str)
        ensures
            s@ == self.detached_signature@,
    {
        self.detached_signature.as_str()
    }

    /// Empties the detached signature.
    pub fn clear_detached_signature(&mut self)
        ensures
            final(self).detached_signature@ == Seq::<char>::empty(),
            keeps_file_contents(*old(self), *final(self)),
    {
        self.detached_signature = String::new();
    }

    /// Sets the detached signature.
    pub fn set_detached_signature(&mut self, v: String)
        ensures
            final(self).detached_signature == v,
            keeps_file_contents(*old(self), *final(self)),
    {
        self.detached_signature = v;
    }

    /// A mutable reference to the detached signature.
    pub fn mut_detached_signature(&mut self) -> (r: &mut String)
        ensures
            *r == old(self).detached_signature,
            final(self).detached_signature == *final(r),
            keeps_file_contents(*old(self), *final(self)),
    {
        &mut self.detached_signature
    }

    /// Takes the detached signature out, leaving it empty.
    pub fn take_detached_signature(&mut self) -> (s: String)
        ensures
            s == old(self).detached_signature,
            final(self).detached_signature@ == Seq::<char>::empty(),
            keeps_file_contents(*old(self), *final(self)),
    {
        let mut s = String::new();
        core::mem::swap(&mut s, &mut self.detached_signature);
        s
    }

    /// The signed file's contents.
    pub fn get_file_contents(&self) -> (s: &str)
        ensures
            s@ == self.file_contents@,
    {
        self.file_contents.as_str()
    }

    /// Empties the signed file's contents.
    pub fn clear_file_contents(&mut self)
        ensures
            final(self).file_contents@ == Seq::<char>::empty(),
            keeps_detached_signature(*old(self), *final(self)),
    {
        self.file_contents = String::new();
    }

    /// Sets the signed file's contents.
    pub fn set_file_contents(&mut self, v: String)
        ensures
            final(self).file_contents == v,
            keeps_detached_signature(*old(self), *final(self)),
    {
        self.file_contents = v;
    }

    /// A mutable reference to the signed file's contents.
    pub fn mut_file_contents(&mut self) -> (r: &mut String)
        ensures
            *r == old(self).file_contents,
            final(self).file_contents == *final(r),
            keeps_detached_signature(*old(self), *final(self)),
    {
        &mut self.file_contents
    }

    /// Takes the signed file's contents out, leaving it empty.
    pub fn take_file_contents(&mut self) -> (s: String)
        ensures
            s == old(self).file_contents,
            final(self).file_contents@ == Seq::<char>::empty(),
            keeps_detached_signature(*old(self), *final(self)),
    {
        let mut s = String::new();
        core::mem::swap(&mut s, &mut self.file_contents);
        s
    }

}

/// The answer to a signature check.
pub struct VerifyResponse {
    /// Whether the signature checked out.
    pub valid: bool,
    /// What the server says about it.
    pub info: String,
}

impl VerifyResponse {
    /// A message with every field at its default: empty text, `false`.
    pub fn new() -> (m: VerifyResponse)
        ensures
            !m.valid,
            m.info@ == Seq::<char>::empty(),
    {
        VerifyResponse { valid: false, info: String::new() }
    }

    /// Whether the signature checked out.
    pub fn get_valid(&self) -> (b: bool)
        ensures
            b == self.valid,
    {
        self.valid
    }

    /// Resets whether the signature checked out to `false`.
    pub fn clear_valid(&mut self)
        ensures
            !final(self).valid,
            keeps_info(*old(self), *final(self)),
    {
        self.valid = false;
    }

    /// Sets whether the signature checked out.
    pub fn set_valid(&mut self, v: bool)
        ensures
            final(self).valid == v,
            keeps_info(*old(self), *final(self)),
    {
        self.valid = v;
    }

    /// What the server says about it.
    pub fn get_info(&self) -> (s: &str)
        ensures
            s@ == self.info@,
    {
        self.info.as_str()
    }

    /// Empties what the server says about it.
    pub fn clear_info(&mut self)
        ensures
            final(self).info@ == Seq::<char>::empty(),
            keeps_valid(*old(self), *final(self)),
    {
        self.info = String::new();
    }

    /// Sets what the server says about it.
    pub fn set_info(&mut self, v: String)
        ensures
            final(self).info == v,
            keeps_valid(*old(self), *final(self)),
    {
        self.info = v;
    }

    /// A mutable reference to what the server says about it.
    pub fn mut_info(&mut self) -> (r: &mut String)
        ensures
            *r == old(self).info,
            final(self).info == *final(r),
            keeps_valid(*old(self), *final(self)),
    {
        &mut self.info
    }

    /// Takes what the server says about it out, leaving it empty.
    pub fn take_info(&mut self) -> (s: String)
        ensures
            s == old(self).info,
            final(self).info@ == Seq::<char>::empty(),
            keeps_valid(*old(self), *final(self)),
    {
        let mut s = String::new();
        core::mem::swap(&mut s, &mut self.info);
        s
    }

}

/// Setting the file contents to `v` and then working only on the detached
/// signature (any number of `set_`, `clear_`, `take_` or `mut_` calls on it,
/// each of which ensures `keeps_file_contents`) leaves the file contents `v`.
/// `history[0]` is the request right after the set; each later entry is the
/// request after one more call.
pub proof fn law_detached_signature_calls_keep_file_contents(
    history: Seq<VerifyDetachedSignatureRequest>,
    v: String,
)
    requires
        history.len() > 0,
        history[0].file_contents == v,
        forall|i: int|
            0 <= i < history.len() - 1 ==> keeps_file_contents(history[i], #[trigger] history[i + 1]),
    ensures
        history.last().file_contents == v,
    decreases history.len(),
{
    if history.len() > 1 {
        let shorter = history.drop_last();
        assert forall|i: int| 0 <= i < shorter.len() - 1 implies (#[trigger] shorter[i + 1]).file_contents
            == shorter[i].file_contents by {
            assert(history[i + 1].file_contents == history[i].file_contents);
        }
        law_detached_signature_calls_keep_file_contents(shorter, v);
        let j = history.len() - 2;
        assert(history[j + 1].file_contents == history[j].file_contents);
        assert(shorter.last() == history[j]);
    }
}

/// Setting the detached signature to `v` and then working only on the file
/// contents (any number of calls on them, each of which ensures
/// `keeps_detached_signature`) leaves the detached signature `v`.
pub proof fn law_file_contents_calls_keep_detached_signature(
    history: Seq<VerifyDetachedSignatureRequest>,
    v: String,
)
    requires
        history.len() > 0,
        history[0].detached_signature == v,
        forall|i: int|
            0 <= i < history.len() - 1 ==> keeps_detached_signature(history[i], #[trigger] history[i + 1]),
    ensures
        history.last().detached_signature == v,
    decreases history.len(),
{
    if history.len() > 1 {
        let shorter = history.drop_last();
        assert forall|i: int| 0 <= i < shorter.len() - 1 implies (#[trigger] shorter[i + 1]).detached_signature
            == shorter[i].detached_signature by {
            assert(history[i + 1].detached_signature == history[i].detached_signature);
        }
        law_file_contents_calls_keep_detached_signature(shorter, v);
        let j = history.len() - 2;
        assert(history[j + 1].detached_signature == history[j].detached_signature);
        assert(shorter.last() == history[j]);
    }
}

/// Setting whether the signature checked out to `b` and then working only
/// on the info text (any number of `set_info`, `clear_info`, `take_info` or
/// `mut_info` calls, each of which ensures `keeps_valid`) leaves `valid` equal to
/// `b`.
pub proof fn law_info_calls_keep_valid(history: Seq<VerifyResponse>, b: bool)
    requires
        history.len() > 0,
        history[0].valid == b,
        forall|i: int| 0 <= i < history.len() - 1 ==> keeps_valid(history[i], #[trigger] history[i + 1]),
    ensures
        history.last().valid == b,
    decreases history.len(),
{
    if history.len() > 1 {
        let shorter = history.drop_last();
        assert forall|i: int| 0 <= i < shorter.len() - 1 implies (#[trigger] shorter[i + 1]).valid
            == shorter[i].valid by {
            assert(history[i + 1].valid == history[i].valid);
        }
        law_info_calls_keep_valid(shorter, b);
        let j = history.len() - 2;
        assert(history[j + 1].valid == history[j].valid);
        assert(shorter.last() == history[j]);
    }
}

/// Setting the info text to `v` and then working only on `valid` (any
/// number of `set_valid` or `clear_valid` calls, each of which ensures
/// `keeps_info`) leaves the info text `v`.
pub proof fn law_valid_calls_keep_info(history: Seq<VerifyResponse>, v: String)
    requires
        history.len() > 0,
        history[0].info == v,
        forall|i: int| 0 <= i < history.len() - 1 ==> keeps_info(history[i], #[trigger] history[i + 1]),
    ensures
        history.last().info == v,
    decreases history.len(),
{
    if history.len() > 1 {
        let shorter = history.drop_last();
        assert forall|i: int| 0 <= i < shorter.len() - 1 implies (#[trigger] shorter[i + 1]).info
            == shorter[i].info by {
            assert(history[i + 1].info == history[i].info);
        }
        law_valid_calls_keep_info(shorter, v);
        let j = history.len() - 2;
        assert(history[j + 1].info == history[j].info);
        assert(shorter.last() == history[j]);
    }
}

} // verus!
