//! Whether a downloaded installer carries a trusted signature.

use crate::number::{decimal, u32_text};
use crate::text::{followed_by, contains, contains_text};
use crate::wide::{from_utf16_lossy, utf16_lossy};
use vstd::prelude::*;

verus! {

/// How many code units a signer's name is read into, the ending zero unit counted.
pub const NAME_CAPACITY: usize = 256;

/// The signer's name holds that of a signer of the project.
pub open spec fn trusted_signer(name: Seq<char>) -> bool {
    ||| contains_text(name, "SignPath Foundation"@)
    ||| contains_text(name, "Open Source Developer, Ryosuke Asano"@)
}

/// Whether the signer's name holds that of a signer of the project.
pub fn is_trusted_signer(name: &str) -> (r: bool)
    ensures
        r == trusted_signer(name@),
{
    contains(name, "SignPath Foundation") || contains(name, "Open Source Developer, Ryosuke Asano")
}

/// The signer's name in a buffer of code units, where `len` counts the name with its ending zero
/// unit; nothing where `len` is zero.
pub open spec fn signer_name(len: u32, units: Seq<u16>) -> Option<Seq<char>> {
    if len == 0 {
        None
    } else {
        Some(utf16_lossy(units.take(len - 1)))
    }
}

/// The signer's name in a buffer of code units.
pub fn get_signer_name(len: u32, units: &Vec<u16>) -> (r: Option<String>)
    requires
        len <= units@.len() + 1,
    ensures
        match r {
            Some(name) => signer_name(len, units@) == Some(name@),
            None => signer_name(len, units@) is None,
        },
{
    if len == 0 {
        None
    } else {
        Some(from_utf16_lossy(units, len as usize - 1))
    }
}

/// What is to be done next to check a signature, or what came of it.
#[derive(Debug, PartialEq)]
pub enum SignatureStep {
    /// Ask Windows whether the file's signature is valid.
    CheckTrust,
    /// Open the file's embedded signature.
    QueryObject,
    /// Look for a certificate in the signature's store.
    FindCertificate,
    /// Read the certificate's display name, into `NAME_CAPACITY` units.
    ReadName,
    /// Whether the file is signed by a trusted signer, or why that is not known.
    Done(Result<bool, String>),
}

/// What came of a step.
#[derive(Debug, PartialEq)]
pub enum SignatureEvent {
    /// The code that Windows gave for the signature; zero stands for a valid one.
    Trust(i32),
    /// The signature was opened, or the error code where it was not.
    Queried(Result<(), u32>),
    /// Whether there is a certificate.
    Certificate(bool),
    /// The units of the name, and how many of them count.
    Name { len: u32, units: Vec<u16> },
}

impl SignatureEvent {
    /// A name is no longer than the buffer that it was read into.
    pub open spec fn well_formed(self) -> bool {
        self matches SignatureEvent::Name { len, units } ==> len <= units@.len() + 1
    }
}

impl SignatureStep {
    /// `next` is the step that follows this one after `event`. An event that does not answer the
    /// step changes nothing.
    pub open spec fn leads_to(self, event: SignatureEvent, next: SignatureStep) -> bool {
        match (self, event) {
            (SignatureStep::CheckTrust, SignatureEvent::Trust(code)) => if code == 0 {
                next == SignatureStep::QueryObject
            } else {
                next == SignatureStep::Done(Ok(false))
            },
            (SignatureStep::QueryObject, SignatureEvent::Queried(Ok(_))) => next
                == SignatureStep::FindCertificate,
            (SignatureStep::QueryObject, SignatureEvent::Queried(Err(code))) => {
                next matches SignatureStep::Done(Err(message)) && message@
                    == "CryptQueryObject failed: error code "@ + decimal(code as int)
            },
            (SignatureStep::FindCertificate, SignatureEvent::Certificate(found)) => if found {
                next == SignatureStep::ReadName
            } else {
                next == SignatureStep::Done(Ok(false))
            },
            (SignatureStep::ReadName, SignatureEvent::Name { len, units }) => next
                == SignatureStep::Done(
                Ok(signer_name(len, units@) matches Some(name) && trusted_signer(name)),
            ),
            _ => next == self,
        }
    }
}

impl SignatureStep {
    /// This is the first step of checking the file at `path`, given what is there: where there is
    /// nothing, or no file, the check ends with an error.
    pub open spec fn begins(self, path: Seq<char>, exists: bool, is_file: bool) -> bool {
        if !exists {
            self matches SignatureStep::Done(Err(message)) && message@
                == "rust.errors.file_not_found|"@ + path
        } else if !is_file {
            self matches SignatureStep::Done(Err(message)) && message@ == "rust.errors.not_a_file|"@
                + path
        } else {
            self == SignatureStep::CheckTrust
        }
    }
}

/// The first step of checking the file at `path`, given what is there.
pub fn check_downloaded_installer_code_sign(path: &str, exists: bool, is_file: bool) -> (r:
    SignatureStep)
    ensures
        r.begins(path@, exists, is_file),
{
    if !exists {
        SignatureStep::Done(Err(followed_by("rust.errors.file_not_found|", path)))
    } else if !is_file {
        SignatureStep::Done(Err(followed_by("rust.errors.not_a_file|", path)))
    } else {
        SignatureStep::CheckTrust
    }
}

/// The step that follows `step` after `event`.
pub fn verify_signature(step: SignatureStep, event: &SignatureEvent) -> (r: SignatureStep)
    requires
        event.well_formed(),
    ensures
        step.leads_to(*event, r),
{
    match (&step, event) {
        (SignatureStep::CheckTrust, SignatureEvent::Trust(code)) => if *code == 0 {
            SignatureStep::QueryObject
        } else {
            SignatureStep::Done(Ok(false))
        },
        (SignatureStep::QueryObject, SignatureEvent::Queried(Ok(_))) => {
            SignatureStep::FindCertificate
        },
        (SignatureStep::QueryObject, SignatureEvent::Queried(Err(code))) => SignatureStep::Done(
            Err(followed_by("CryptQueryObject failed: error code ", u32_text(*code).as_str())),
        ),
        (SignatureStep::FindCertificate, SignatureEvent::Certificate(found)) => if *found {
            SignatureStep::ReadName
        } else {
            SignatureStep::Done(Ok(false))
        },
        (SignatureStep::ReadName, SignatureEvent::Name { len, units }) => SignatureStep::Done(
            Ok(
                match get_signer_name(*len, units) {
                    Some(name) => is_trusted_signer(name.as_str()),
                    None => false,
                },
            ),
        ),
        _ => step,
    }
}

impl SignatureStep {
    /// `event` is of the kind that the step asks for.
    pub open spec fn answered_by(self, event: SignatureEvent) -> bool {
        match self {
            SignatureStep::CheckTrust => event is Trust,
            SignatureStep::QueryObject => event is Queried,
            SignatureStep::FindCertificate => event is Certificate,
            SignatureStep::ReadName => event is Name,
            SignatureStep::Done(_) => false,
        }
    }

    /// How many answers the check can still take.
    pub open spec fn distance(self) -> nat {
        match self {
            SignatureStep::CheckTrust => 4,
            SignatureStep::QueryObject => 3,
            SignatureStep::FindCertificate => 2,
            SignatureStep::ReadName => 1,
            SignatureStep::Done(_) => 0,
        }
    }
}

/// Each answer brings the check of a signature nearer to its end.
pub proof fn law_answers_bring_the_check_forward(
    step: SignatureStep,
    event: SignatureEvent,
    next: SignatureStep,
)
    requires
        step.leads_to(event, next),
        step.answered_by(event),
    ensures
        next.distance() < step.distance(),
{
}

} // verus!
