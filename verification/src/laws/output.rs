//! What the script is made of, and what its output means.

use super::numbers::{lemma_writes, writes};
use super::texts::{
    begins, blank, holds, lemma_begins, lemma_first_with_prefix, lemma_holds, lemma_line_split,
    lemma_trimmed,
};
use crate::elevated::{
    build_script_args, double_quotes, read_output, read_script_output, reported_code, rights_denied,
    script_content, utf8_lossy, InstallerStatus,
};
use crate::number::{decimal, i32_of, law_decimal_read_back, lemma_decimal_digits, parse_i32};
use crate::text::{
    first_with_prefix, lemma_first_line, line_length, lines, lines_of, texts, trim,
    trim_start_matches, trimmed, white_space, without_prefixes, without_return,
};
use vstd::prelude::*;
use vstd::utf8::{decode_utf8, valid_utf8};

verus! {

/// Doubling the quotes writes a quote twice and any other character once, in order.
pub proof fn law_double_quotes(s: &str, c: char, t: &str, r: String, q: String)
    requires
        call_ensures(double_quotes, (s,), r),
        call_ensures(double_quotes, (t,), q),
    ensures
        s@.len() == 0 ==> r@.len() == 0,
        c == '\'' && s@ == seq![c] + t@ ==> r@ == seq!['\'', '\''] + q@,
        c != '\'' && s@ == seq![c] + t@ ==> r@ == seq![c] + q@,
{
    if s@ == seq![c] + t@ {
        assert(s@.drop_first() =~= t@);
        assert(s@[0] == c);
    }
}

/// The script starts the program at the path with the arguments as an administrator, waits for it
/// and writes its exit code behind `EXITCODE:`, or what went wrong behind `ERROR:`.
pub proof fn law_script_content(path: &str, args: &str, p: String, a: String, r: String)
    requires
        call_ensures(double_quotes, (path,), p),
        call_ensures(double_quotes, (args,), a),
        call_ensures(script_content, (path, args), r),
    ensures
        r@
            == "try {\n$ErrorActionPreference = 'Stop';\n$process = Start-Process -FilePath '"@ + p@
            + "' -ArgumentList '"@ + a@
            + "' -Verb RunAs -PassThru -Wait;\n$exitCode = $process.ExitCode;\nWrite-Output \"EXITCODE:$exitCode\";\nexit 0;\n} catch {\nWrite-Output \"ERROR:$($_.Exception.Message)\";\nexit 1;\n}"@,
{
}

/// The script is run past the execution policy, by its path.
pub proof fn law_build_script_args(script: String, r: Vec<String>)
    requires
        call_ensures(build_script_args, (&script,), r),
    ensures
        r@.len() == 4,
        r@[0]@ == "-ExecutionPolicy"@,
        r@[1]@ == "Bypass"@,
        r@[2]@ == "-File"@,
        r@[3]@ == script@,
{
    let all = texts(r@);
    assert(all.len() == r@.len());
    assert(all[0] == r@[0]@ && all[1] == r@[1]@ && all[2] == r@[2]@ && all[3] == r@[3]@);
}

/// The two results are the same success, or failures with the same message.
pub open spec fn agree(
    a: Result<InstallerStatus, String>,
    b: Result<InstallerStatus, String>,
) -> bool {
    match (a, b) {
        (Ok(x), Ok(y)) => x == y,
        (Err(x), Err(y)) => x@ == y@,
        _ => false,
    }
}

/// The output tells of an error, and of rights that were asked for and not given.
pub open spec fn refused(output: Seq<char>) -> bool {
    &&& holds(output, "ERROR:"@)
    &&& {
        ||| holds(output, "RunAs"@)
        ||| holds(output, "permission"@)
        ||| holds(output, "canceled"@)
        ||| holds(output, "cancelled"@)
        ||| holds(output, "denied"@)
    }
}

/// Line `k` of the output is its first that begins with `EXITCODE:`.
pub open spec fn report_line(output: Seq<char>, k: int) -> bool {
    &&& 0 <= k < lines_of(output).len()
    &&& begins(lines_of(output)[k], "EXITCODE:"@)
    &&& forall|j: int| 0 <= j < k ==> !begins(#[trigger] lines_of(output)[j], "EXITCODE:"@)
}

/// The first line that begins with `EXITCODE:` writes `code` behind it, between white space.
pub open spec fn printed(output: Seq<char>, code: int) -> bool {
    exists|k: int| #[trigger]
        report_line(output, k) && writes(
            trimmed(without_prefixes(lines_of(output)[k], "EXITCODE:"@)),
            code,
        )
}

/// Output is taken for a refusal where it tells of one.
pub proof fn lemma_refused(output: Seq<char>)
    ensures
        rights_denied(output) <==> refused(output),
{
    lemma_holds(output, "ERROR:"@);
    lemma_holds(output, "RunAs"@);
    lemma_holds(output, "permission"@);
    lemma_holds(output, "canceled"@);
    lemma_holds(output, "cancelled"@);
    lemma_holds(output, "denied"@);
}

/// The report line is the line that the exit code is read from.
proof fn lemma_report_line(output: Seq<char>, k: int)
    requires
        report_line(output, k),
    ensures
        first_with_prefix(lines_of(output), "EXITCODE:"@) == Some(lines_of(output)[k]),
{
    let all = lines_of(output);
    let key = "EXITCODE:"@;
    lemma_begins(all[k], key);
    assert forall|j: int| 0 <= j < k implies !key.is_prefix_of(#[trigger] all[j]) by {
        lemma_begins(all[j], key);
    }
    lemma_first_with_prefix(all, key);
}

/// Where an exit code is read, there is a report line.
proof fn lemma_has_report_line(list: Seq<Seq<char>>, key: Seq<char>) -> (k: int)
    requires
        first_with_prefix(list, key) is Some,
    ensures
        0 <= k < list.len(),
        begins(list[k], key),
        forall|j: int| 0 <= j < k ==> !begins(#[trigger] list[j], key),
    decreases list.len(),
{
    lemma_begins(list[0], key);
    if key.is_prefix_of(list[0]) {
        0
    } else {
        let rest = list.drop_first();
        let k = lemma_has_report_line(rest, key);
        assert(rest[k] == list[k + 1]);
        assert forall|j: int| 0 <= j < k + 1 implies !begins(#[trigger] list[j], key) by {
            if j > 0 {
                assert(rest[j - 1] == list[j]);
            }
        }
        k + 1
    }
}

/// Output that tells of an error and of rights not given is answered with that failure, whatever
/// exit code stands in it, and no other output is.
pub proof fn law_refusal(output: &str, r: Result<InstallerStatus, String>)
    requires
        call_ensures(read_output, (output,), r),
    ensures
        holds(output@, "ERROR:"@) && (holds(output@, "RunAs"@) || holds(output@, "permission"@)
            || holds(output@, "canceled"@) || holds(output@, "cancelled"@) || holds(
            output@,
            "denied"@,
        )) <==> (r matches Err(message) && message@ == "rust.errors.admin_rights_denied"@),
{
    lemma_refused(output@);
    reveal_strlit("rust.errors.admin_rights_denied");
    reveal_strlit("rust.errors.exit_code_not_found");
    reveal_strlit("rust.errors.admin_install_failed|");
    if !rights_denied(output@) {
        if let Err(message) = r {
            assert(message@[12] == 'e' || message@[18] == 'i');
        }
    }
}

/// The number on the first report line decides: zero is success with that code, any other code is
/// a failure that names it. Success comes only of a printed zero.
pub proof fn law_printed_code(output: &str, code: i32, r: Result<InstallerStatus, String>)
    requires
        call_ensures(read_output, (output,), r),
    ensures
        !refused(output@) && printed(output@, code as int) && code == 0 ==> r == Ok::<
            InstallerStatus,
            String,
        >(InstallerStatus { success: true, code: 0 }),
        !refused(output@) && printed(output@, code as int) && code != 0 ==> (r matches Err(message)
            && message@ == "rust.errors.admin_install_failed|"@ + decimal(code as int)),
        r is Ok <==> !refused(output@) && printed(output@, 0),
        r is Ok ==> r->Ok_0.success && r->Ok_0.code == 0,
{
    lemma_refused(output@);
    lemma_printed(output@, code);
    lemma_printed(output@, 0);
}

/// A printed code is the reported one.
pub proof fn lemma_printed(output: Seq<char>, code: i32)
    ensures
        printed(output, code as int) ==> reported_code(output) == Some(code),
        reported_code(output) == Some(code) && code != -1 ==> printed(output, code as int),
{
    let all = lines_of(output);
    let key = "EXITCODE:"@;
    if printed(output, code as int) {
        let k = choose|k: int| #[trigger]
            report_line(output, k) && writes(trimmed(without_prefixes(all[k], key)), code as int);
        lemma_report_line(output, k);
        lemma_writes(trimmed(without_prefixes(all[k], key)), code);
    }
    if reported_code(output) == Some(code) && code != -1 {
        let k = lemma_has_report_line(all, key);
        assert(report_line(output, k));
        lemma_report_line(output, k);
        lemma_writes(trimmed(without_prefixes(all[k], key)), code);
    }
}

/// What stands on the first report line is trimmed and read as a number; a text that is none
/// counts as -1.
pub proof fn law_report_is_read(
    output: &str,
    list: Vec<String>,
    k: int,
    line: &str,
    rest: String,
    behind: &str,
    number: String,
    digits: &str,
    code: Option<i32>,
    r: Result<InstallerStatus, String>,
)
    requires
        call_ensures(lines, (output,), list),
        0 <= k < list@.len(),
        begins(list@[k]@, "EXITCODE:"@),
        forall|j: int| 0 <= j < k ==> !begins(#[trigger] list@[j]@, "EXITCODE:"@),
        line@ == list@[k]@,
        call_ensures(trim_start_matches, (line, "EXITCODE:"), rest),
        behind@ == rest@,
        call_ensures(trim, (behind,), number),
        digits@ == number@,
        call_ensures(parse_i32, (digits,), code),
        call_ensures(read_output, (output,), r),
        !refused(output@),
    ensures
        code == Some(0i32) ==> r == Ok::<InstallerStatus, String>(
            InstallerStatus { success: true, code: 0 },
        ),
        code is Some && code->0 != 0 ==> (r matches Err(message) && message@
            == "rust.errors.admin_install_failed|"@ + decimal(code->0 as int)),
        code is None ==> (r matches Err(message) && message@
            == "rust.errors.admin_install_failed|-1"@),
{
    let all = lines_of(output@);
    assert(all =~= texts(list@));
    assert forall|j: int| 0 <= j < k implies !begins(#[trigger] all[j], "EXITCODE:"@) by {
        assert(!begins(list@[j]@, "EXITCODE:"@));
    }
    assert(report_line(output@, k));
    lemma_report_line(output@, k);
    lemma_refused(output@);
    if code is None {
        reveal_strlit("rust.errors.admin_install_failed|");
        reveal_strlit("rust.errors.admin_install_failed|-1");
        reveal_with_fuel(crate::number::decimal_digits, 2);
        assert("rust.errors.admin_install_failed|"@ + decimal(-1)
            =~= "rust.errors.admin_install_failed|-1"@);
    }
}

/// Output without a report line, and without a refusal, is answered with that failure.
pub proof fn law_no_report(output: &str, list: Vec<String>, r: Result<InstallerStatus, String>)
    requires
        call_ensures(lines, (output,), list),
        call_ensures(read_output, (output,), r),
        forall|j: int| 0 <= j < list@.len() ==> !begins(#[trigger] list@[j]@, "EXITCODE:"@),
        !refused(output@),
    ensures
        r matches Err(message) && message@ == "rust.errors.exit_code_not_found"@,
{
    let all = lines_of(output@);
    assert(all =~= texts(list@));
    assert forall|j: int| 0 <= j < all.len() implies !"EXITCODE:"@.is_prefix_of(
        #[trigger] all[j],
    ) by {
        assert(!begins(list@[j]@, "EXITCODE:"@));
        lemma_begins(all[j], "EXITCODE:"@);
    }
    lemma_first_with_prefix(all, "EXITCODE:"@);
    lemma_refused(output@);
}

/// No line of `s` begins with `EXITCODE:`, told of positions: where that stands, something other
/// than a line feed stands before it.
pub open spec fn silent(s: Seq<char>) -> bool {
    forall|a: Seq<char>, b: Seq<char>| #[trigger]
        (a + "EXITCODE:"@ + b) == s ==> a.len() > 0 && a.last() != '\n'
}

/// Whole lines without a report, before other text, do not change which report line is first.
proof fn lemma_lines_before(before: Seq<char>, rest: Seq<char>)
    requires
        before.len() == 0 || before.last() == '\n',
        silent(before),
    ensures
        first_with_prefix(lines_of(before + rest), "EXITCODE:"@) == first_with_prefix(
            lines_of(rest),
            "EXITCODE:"@,
        ),
    decreases before.len(),
{
    let key = "EXITCODE:"@;
    if before.len() == 0 {
        assert(before + rest =~= rest);
    } else {
        lemma_line_split(before);
        let n = line_length(before) as int;
        let head = before.take(n);
        if n == before.len() {
            assert(head[n - 1] == '\n');
            assert(head.contains('\n'));
        }
        let tail = before.skip(n + 1);
        let line = without_return(head);
        lemma_first_line(head, tail + rest);
        assert(before + rest =~= head + seq!['\n'] + (tail + rest));
        if key.is_prefix_of(line) {
            let b = before.skip(key.len() as int);
            assert(line.take(key.len() as int) =~= key);
            assert(Seq::<char>::empty() + key + b =~= before) by {
                assert forall|i: int| 0 <= i < key.len() implies key[i] == before[i] by {
                    assert(line.take(key.len() as int)[i] == line[i]);
                }
            }
        }
        assert(silent(tail)) by {
            assert forall|a: Seq<char>, b: Seq<char>| #[trigger]
                (a + key + b) == tail implies a.len() > 0 && a.last() != '\n' by {
                let c = head + seq!['\n'] + a;
                assert(c + key + b =~= before);
            }
        }
        if tail.len() > 0 {
            assert(tail.last() == before.last());
        }
        lemma_lines_before(tail, rest);
        let all = lines_of(before + rest);
        assert(all[0] == line);
        assert(all.drop_first() =~= lines_of(tail + rest));
    }
}

/// A printed line with an exit code in decimal is read as that code, whatever lines without a
/// report stand before it and whatever follows: success for zero, and for any other code a failure
/// that names it.
pub proof fn law_reported_code_decides(
    output: &str,
    before: Seq<char>,
    front: Seq<char>,
    code: i32,
    back: Seq<char>,
    rest: Seq<char>,
    r: Result<InstallerStatus, String>,
)
    requires
        call_ensures(read_output, (output,), r),
        output@ == before + "EXITCODE:"@ + front + decimal(code as int) + back + rest,
        before.len() == 0 || before.last() == '\n',
        silent(before),
        blank(front),
        !front.contains('\n'),
        blank(back),
        !back.contains('\n'),
        rest.len() == 0 || rest[0] == '\n',
        !refused(output@),
    ensures
        code == 0 ==> r == Ok::<InstallerStatus, String>(
            InstallerStatus { success: true, code: 0 },
        ),
        code != 0 ==> (r matches Err(message) && message@ == "rust.errors.admin_install_failed|"@
            + decimal(code as int)),
{
    let key = "EXITCODE:"@;
    let head = key + front + decimal(code as int) + back;
    let end = if rest.len() > 0 {
        without_return(back)
    } else {
        back
    };
    let line = key + front + decimal(code as int) + end;
    lemma_report_head(front, code, back);
    assert(output@ =~= before + (head + rest));
    lemma_lines_before(before, head + rest);
    lemma_head_line(head, rest);
    lemma_report_read(front, code, end);
    assert(lines_of(head + rest)[0] == line);
    lemma_refused(output@);
}

/// A report stands on one line, and has a carriage return at its end only where the white space
/// behind the number has.
proof fn lemma_report_head(front: Seq<char>, code: i32, back: Seq<char>)
    requires
        blank(front),
        !front.contains('\n'),
        blank(back),
        !back.contains('\n'),
    ensures
        ({
            let head = "EXITCODE:"@ + front + decimal(code as int) + back;
            &&& head.len() > 0
            &&& !head.contains('\n')
            &&& without_return(head) == "EXITCODE:"@ + front + decimal(code as int)
                + without_return(back)
            &&& blank(without_return(back))
        }),
{
    reveal_strlit("EXITCODE:");
    let key = "EXITCODE:"@;
    let digits = decimal(code as int);
    lemma_decimal_text(code as int);
    let head = key + front + digits + back;
    if head.contains('\n') {
        let i = choose|i: int| 0 <= i < head.len() && head[i] == '\n';
        let f = key.len() + front.len();
        if i < key.len() {
            assert(key[i] == '\n');
        } else if i < f {
            assert(front.contains(front[i - key.len()]));
        } else if i < f + digits.len() {
            assert(head[i] == digits[i - f]);
        } else {
            assert(back.contains(back[i - f - digits.len()]));
        }
    }
    if back.len() > 0 {
        assert(head.last() == back.last());
    } else {
        assert(head.last() == digits.last());
    }
    assert(without_return(head) =~= key + front + digits + without_return(back));
    assert forall|i: int| 0 <= i < without_return(back).len() implies white_space(
        #[trigger] without_return(back)[i],
    ) by {
        assert(without_return(back)[i] == back[i]);
    }
}

/// A text on one line is the first line, without its carriage return where a line feed follows.
proof fn lemma_head_line(head: Seq<char>, rest: Seq<char>)
    requires
        head.len() > 0,
        !head.contains('\n'),
        rest.len() == 0 || rest[0] == '\n',
    ensures
        lines_of(head + rest).len() > 0,
        lines_of(head + rest)[0] == if rest.len() > 0 {
            without_return(head)
        } else {
            head
        },
{
    if rest.len() > 0 {
        assert(head + rest =~= head + seq!['\n'] + rest.drop_first());
        lemma_first_line(head, rest.drop_first());
    } else {
        assert(head + rest =~= head);
        lemma_line_split(head);
        let n = line_length(head) as int;
        if n < head.len() {
            assert(head[n] == (head.take(n) + seq!['\n'] + head.skip(n + 1))[n]);
            assert(head.contains('\n'));
        }
    }
}

/// A report line with an exit code in decimal, between white space, is read as that code.
proof fn lemma_report_read(front: Seq<char>, code: i32, end: Seq<char>)
    requires
        blank(front),
        blank(end),
    ensures
        ({
            let line = "EXITCODE:"@ + front + decimal(code as int) + end;
            &&& "EXITCODE:"@.is_prefix_of(line)
            &&& i32_of(trimmed(without_prefixes(line, "EXITCODE:"@))) == Some(code)
        }),
{
    reveal_strlit("EXITCODE:");
    let key = "EXITCODE:"@;
    let digits = decimal(code as int);
    lemma_decimal_text(code as int);
    let line = key + front + digits + end;
    assert(line.subrange(0, key.len() as int) =~= key);
    let t = front + digits + end;
    assert(line.skip(key.len() as int) =~= t);
    assert(!key.is_prefix_of(t)) by {
        if key.is_prefix_of(t) {
            assert(t.subrange(0, key.len() as int)[0] == t[0]);
            assert(key[0] == 'E');
            if front.len() > 0 {
                assert(white_space(front[0]));
            } else {
                assert(t[0] == digits[0]);
            }
        }
    }
    assert(without_prefixes(t, key) == t);
    assert(without_prefixes(line, key) == t);
    lemma_trimmed(front, digits, end);
    law_decimal_read_back(code);
}

/// What decimal notation is made of.
proof fn lemma_decimal_text(n: int)
    ensures
        decimal(n).len() > 0,
        forall|i: int|
            0 <= i < decimal(n).len() ==> ('0' <= #[trigger] decimal(n)[i] <= '9' || decimal(n)[i]
                == '-'),
{
    lemma_decimal_digits(
        if n < 0 {
            (-n) as nat
        } else {
            n as nat
        },
    );
}

/// The script's report of any code is what decides: success for zero, and for any other code a
/// failure that names it.
pub proof fn law_printed_report(output: &str, code: i32, r: Result<InstallerStatus, String>)
    requires
        call_ensures(read_output, (output,), r),
        output@ == "EXITCODE:"@ + decimal(code as int) + "\r\n"@,
    ensures
        code == 0 <==> r is Ok,
        code == 0 ==> r == Ok::<InstallerStatus, String>(
            InstallerStatus { success: true, code: 0 },
        ),
        code != 0 ==> (r matches Err(message) && message@ == "rust.errors.admin_install_failed|"@
            + decimal(code as int)),
{
    reveal_strlit("EXITCODE:");
    reveal_strlit("\r\n");
    let none = Seq::<char>::empty();
    crate::elevated::law_reported_code_read_back(code);
    lemma_refused(output@);
    assert(output@ =~= none + "EXITCODE:"@ + none + decimal(code as int) + seq!['\r'] + seq!['\n']);
    assert(silent(none)) by {
        assert forall|a: Seq<char>, b: Seq<char>| #[trigger]
            (a + "EXITCODE:"@ + b) == none implies a.len() > 0 && a.last() != '\n' by {
            assert((a + "EXITCODE:"@ + b).len() == a.len() + 9 + b.len());
        }
    }
    law_reported_code_decides(output, none, none, code, seq!['\r'], seq!['\n'], r);
}

/// Bytes that are UTF-8 mean what the text that they encode means.
pub proof fn law_read_script_output(
    stdout: Vec<u8>,
    text: &str,
    r: Result<InstallerStatus, String>,
    q: Result<InstallerStatus, String>,
)
    requires
        call_ensures(read_script_output, (&stdout,), r),
        call_ensures(read_output, (text,), q),
        text@ == utf8_lossy(stdout@) || valid_utf8(stdout@) && text@ == decode_utf8(stdout@),
    ensures
        agree(r, q),
{
}

} // verus!
