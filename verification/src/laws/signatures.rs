//! Which signatures are trusted.

use super::texts::{holds, lemma_holds};
use crate::number::decimal;
use crate::signature::{
    check_downloaded_installer_code_sign, get_signer_name, is_trusted_signer, verify_signature,
    SignatureEvent, SignatureStep, NAME_CAPACITY,
};
use crate::wide::from_utf16_lossy;
use vstd::prelude::*;

verus! {

/// A signer is trusted where the name holds the whole of one of the two signers' names.
pub proof fn law_trusted_signer(name: &str, r: bool)
    requires
        call_ensures(is_trusted_signer, (name,), r),
    ensures
        r <==> holds(name@, "SignPath Foundation"@) || holds(
            name@,
            "Open Source Developer, Ryosuke Asano"@,
        ),
{
    lemma_holds(name@, "SignPath Foundation"@);
    lemma_holds(name@, "Open Source Developer, Ryosuke Asano"@);
}

/// The name is what all but the last of the counted units denote; there is none where no unit
/// counts.
pub proof fn law_signer_name(len: u32, units: Vec<u16>, text: String, r: Option<String>)
    requires
        len <= units@.len() + 1,
        call_ensures(get_signer_name, (len, &units), r),
        len > 0 ==> call_ensures(from_utf16_lossy, (&units, (len - 1) as usize), text),
    ensures
        len == 0 ==> r is None,
        len > 0 ==> (r matches Some(name) && name@ == text@),
{
}

/// Only a file that is there is checked; each other case is told with the path.
pub proof fn law_check_begins(path: &str, exists: bool, is_file: bool, r: SignatureStep)
    requires
        call_ensures(check_downloaded_installer_code_sign, (path, exists, is_file), r),
    ensures
        exists && is_file <==> r == SignatureStep::CheckTrust,
        !exists ==> (r matches SignatureStep::Done(Err(message)) && message@
            == "rust.errors.file_not_found|"@ + path@),
        exists && !is_file ==> (r matches SignatureStep::Done(Err(message)) && message@
            == "rust.errors.not_a_file|"@ + path@),
{
}

/// The check of a file ends well exactly where Windows finds the signature valid, the signature
/// can be opened and holds a certificate, and the certificate's name holds the whole of a trusted
/// signer's name. A signature that cannot be opened is the one error, with the code.
pub proof fn law_whole_check(
    trust: i32,
    query: Result<(), u32>,
    found: bool,
    len: u32,
    units: Vec<u16>,
    name: String,
    second: SignatureStep,
    third: SignatureStep,
    fourth: SignatureStep,
    end: SignatureStep,
)
    requires
        call_ensures(
            verify_signature,
            (SignatureStep::CheckTrust, &SignatureEvent::Trust(trust)),
            second,
        ),
        call_ensures(verify_signature, (second, &SignatureEvent::Queried(query)), third),
        call_ensures(verify_signature, (third, &SignatureEvent::Certificate(found)), fourth),
        len <= units@.len() + 1,
        call_ensures(verify_signature, (fourth, &SignatureEvent::Name { len, units }), end),
        len > 0 ==> call_ensures(from_utf16_lossy, (&units, (len - 1) as usize), name),
    ensures
        end == SignatureStep::Done(Ok(true)) <==> {
            &&& trust == 0
            &&& query is Ok
            &&& found
            &&& len > 0
            &&& {
                ||| holds(name@, "SignPath Foundation"@)
                ||| holds(name@, "Open Source Developer, Ryosuke Asano"@)
            }
        },
        trust == 0 && query is Err <==> (end matches SignatureStep::Done(Err(_))),
        trust == 0 && query is Err ==> (end matches SignatureStep::Done(Err(message)) && message@
            == "CryptQueryObject failed: error code "@ + decimal(query->Err_0 as int)),
        end != SignatureStep::Done(Ok(true)) && !(trust == 0 && query is Err) ==> end
            == SignatureStep::Done(Ok(false)),
{
    lemma_holds(name@, "SignPath Foundation"@);
    lemma_holds(name@, "Open Source Developer, Ryosuke Asano"@);
}

/// Each step takes its own answer, and only that: the signature is found valid before it is
/// opened, opened before a certificate is looked for, and a certificate found before its name is
/// read; other answers leave the check where it is.
pub proof fn law_check_step(step: SignatureStep, event: SignatureEvent, r: SignatureStep)
    requires
        event matches SignatureEvent::Name { len, units } ==> len <= units@.len() + 1,
        call_ensures(verify_signature, (step, &event), r),
    ensures
        r == SignatureStep::QueryObject && step != r ==> step == SignatureStep::CheckTrust && event
            == SignatureEvent::Trust(0),
        r == SignatureStep::FindCertificate && step != r ==> step == SignatureStep::QueryObject
            && (event matches SignatureEvent::Queried(Ok(_))),
        r == SignatureStep::ReadName && step != r ==> step == SignatureStep::FindCertificate && event
            == SignatureEvent::Certificate(true),
        r == SignatureStep::Done(Ok(true)) && step != r ==> step == SignatureStep::ReadName && event
            is Name,
        r == SignatureStep::CheckTrust ==> step == SignatureStep::CheckTrust && !(event is Trust),
        step is Done ==> r == step,
        step == SignatureStep::QueryObject && !(event is Queried) ==> r == step,
        step == SignatureStep::FindCertificate && !(event is Certificate) ==> r == step,
        step == SignatureStep::ReadName && !(event is Name) ==> r == step,
        step == SignatureStep::CheckTrust && !(event is Trust) ==> r == step,
{
}

/// How much of a name can be read.
pub proof fn law_name_capacity()
    ensures
        NAME_CAPACITY == 256,
{
}

} // verus!
