//! Running the installer with administrator rights, by way of a PowerShell script.

use crate::number::{
    decimal, i32_of, i32_text, law_decimal_read_back, lemma_decimal_digits, parse_i32,
};
use crate::text::{
    chars_of, followed_by, contains, contains_text, find_line, first_with_prefix, lemma_first_line,
    lines_of, occurs_at, texts, trim, trim_start_matches, trimmed, without_prefixes,
    without_return,
};
use vstd::prelude::*;
use vstd::utf8::{decode_utf8, valid_utf8};

verus! {

/// `s` with each single quote doubled.
pub open spec fn doubled_quotes(s: Seq<char>) -> Seq<char>
    decreases s.len(),
{
    if s.len() == 0 {
        Seq::empty()
    } else if s[0] == '\'' {
        seq!['\'', '\''] + doubled_quotes(s.drop_first())
    } else {
        seq![s[0]] + doubled_quotes(s.drop_first())
    }
}

/// `s` with each single quote doubled.
pub fn double_quotes(s: &str) -> (r: String)
    ensures
        r@ == doubled_quotes(s@),
{
    let text: Vec<char> = chars_of(s);
    let mut out: String = String::new();
    let mut i: usize = 0;
    assert(s@.skip(0) =~= s@);
    assert(out@ + doubled_quotes(s@) =~= doubled_quotes(s@));
    while i < text.len()
        invariant
            text@ == s@,
            i <= s@.len(),
            doubled_quotes(s@) == out@ + doubled_quotes(s@.skip(i as int)),
        decreases s@.len() - i,
    {
        let ghost before = out@;
        let ghost rest = doubled_quotes(s@.skip(i + 1));
        let c: char = text[i];
        assert(s@.skip(i as int).drop_first() =~= s@.skip(i + 1));
        if c == '\'' {
            out.push(c);
            assert(before + (seq![c, c] + rest) =~= out@.push(c) + rest);
        } else {
            assert(before + (seq![c] + rest) =~= before.push(c) + rest);
        }
        out.push(c);
        i += 1;
    }
    assert(out@ + Seq::<char>::empty() =~= out@);
    out
}

/// What stands before the path in the script.
pub open spec fn script_head() -> Seq<char> {
    "try {\n$ErrorActionPreference = 'Stop';\n$process = Start-Process -FilePath '"@
}

/// What stands behind the arguments in the script.
pub open spec fn script_tail() -> Seq<char> {
    "' -Verb RunAs -PassThru -Wait;\n$exitCode = $process.ExitCode;\nWrite-Output \"EXITCODE:$exitCode\";\nexit 0;\n} catch {\nWrite-Output \"ERROR:$($_.Exception.Message)\";\nexit 1;\n}"@
}

/// The script that runs the program at `path` with `args` as an administrator and reports its exit
/// code.
pub open spec fn script_text(path: Seq<char>, args: Seq<char>) -> Seq<char> {
    script_head() + doubled_quotes(path) + "' -ArgumentList '"@ + doubled_quotes(args)
        + script_tail()
}

/// The script that runs the program at `path` with `args` as an administrator and reports its exit
/// code.
pub fn script_content(path: &str, args: &str) -> (r: String)
    ensures
        r@ == script_text(path@, args@),
{
    let mut out: String = followed_by(
        "try {\n$ErrorActionPreference = 'Stop';\n$process = Start-Process -FilePath '",
        double_quotes(path).as_str(),
    );
    out.append("' -ArgumentList '");
    out.append(double_quotes(args).as_str());
    out.append(
        "' -Verb RunAs -PassThru -Wait;\n$exitCode = $process.ExitCode;\nWrite-Output \"EXITCODE:$exitCode\";\nexit 0;\n} catch {\nWrite-Output \"ERROR:$($_.Exception.Message)\";\nexit 1;\n}",
    );
    out
}

/// The program that runs the script.
pub open spec fn script_program() -> Seq<char> {
    "powershell.exe"@
}

/// The arguments with which that program runs the script at `script`.
pub open spec fn script_args(script: Seq<char>) -> Seq<Seq<char>> {
    seq!["-ExecutionPolicy"@, "Bypass"@, "-File"@, script]
}

/// The arguments with which the script at `script` is run.
pub fn build_script_args(script: &String) -> (r: Vec<String>)
    ensures
        texts(r@) == script_args(script@),
{
    let mut args: Vec<String> = Vec::new();
    args.push("-ExecutionPolicy".to_owned());
    args.push("Bypass".to_owned());
    args.push("-File".to_owned());
    args.push(script.clone());
    assert(texts(args@) =~= script_args(script@));
    args
}

/// What came of an installation: whether it succeeded, and the installer's exit code.
#[derive(Debug, Clone, Copy, PartialEq)]
pub struct InstallerStatus {
    pub success: bool,
    pub code: i32,
}

/// What `String::from_utf8_lossy` makes of bytes.
pub uninterp spec fn utf8_lossy(bytes: Seq<u8>) -> Seq<char>;

/// `String::from_utf8_lossy`: the text that the bytes encode in UTF-8, with U+FFFD for what is no
/// UTF-8. How much of an invalid part one U+FFFD stands for is left to the name `utf8_lossy`.
#[verifier::external_body]
fn from_utf8_lossy(bytes: &Vec<u8>) -> (r: String)
    ensures
        r@ == utf8_lossy(bytes@),
        valid_utf8(bytes@) ==> r@ == decode_utf8(bytes@),
{
    String::from_utf8_lossy(bytes).into_owned()
}

/// The script's output says that administrator rights were not given.
pub open spec fn rights_denied(output: Seq<char>) -> bool {
    &&& contains_text(output, "ERROR:"@)
    &&& {
        ||| contains_text(output, "RunAs"@)
        ||| contains_text(output, "permission"@)
        ||| contains_text(output, "canceled"@)
        ||| contains_text(output, "cancelled"@)
        ||| contains_text(output, "denied"@)
    }
}

/// The exit code on the first line that reports one; -1 where that line holds no number, nothing
/// where there is no such line.
pub open spec fn reported_code(output: Seq<char>) -> Option<i32> {
    match first_with_prefix(lines_of(output), "EXITCODE:"@) {
        None => None,
        Some(line) => match i32_of(trimmed(without_prefixes(line, "EXITCODE:"@))) {
            Some(code) => Some(code),
            None => Some(-1i32),
        },
    }
}

/// `result` is what the script's output says of the installation.
pub open spec fn output_means(
    output: Seq<char>,
    result: Result<InstallerStatus, String>,
) -> bool {
    if rights_denied(output) {
        result matches Err(message) && message@ == "rust.errors.admin_rights_denied"@
    } else {
        match reported_code(output) {
            None => result matches Err(message) && message@ == "rust.errors.exit_code_not_found"@,
            Some(code) => if code == 0 {
                result == Ok::<InstallerStatus, String>(InstallerStatus { success: true, code: 0 })
            } else {
                result matches Err(message) && message@ == "rust.errors.admin_install_failed|"@
                    + decimal(code as int)
            },
        }
    }
}

/// What the script's output says of the installation.
pub fn read_output(output: &str) -> (r: Result<InstallerStatus, String>)
    ensures
        output_means(output@, r),
{
    if contains(output, "ERROR:") && (contains(output, "RunAs") || contains(output, "permission")
        || contains(output, "canceled") || contains(output, "cancelled") || contains(
        output,
        "denied",
    )) {
        return Err("rust.errors.admin_rights_denied".to_owned());
    }
    match find_line(output, "EXITCODE:") {
        None => Err("rust.errors.exit_code_not_found".to_owned()),
        Some(line) => {
            let rest: String = trim_start_matches(line.as_str(), "EXITCODE:");
            let code: i32 = match parse_i32(trim(rest.as_str()).as_str()) {
                Some(code) => code,
                None => -1,
            };
            if code == 0 {
                Ok(InstallerStatus { success: true, code: 0 })
            } else {
                Err(followed_by("rust.errors.admin_install_failed|", i32_text(code).as_str()))
            }
        },
    }
}

/// What the bytes that the script wrote say of the installation.
pub fn read_script_output(stdout: &Vec<u8>) -> (r: Result<InstallerStatus, String>)
    ensures
        output_means(utf8_lossy(stdout@), r),
        valid_utf8(stdout@) ==> output_means(decode_utf8(stdout@), r),
{
    read_output(from_utf8_lossy(stdout).as_str())
}

/// Reads a single-quoted literal whose opening quote was read before: its value, and what follows
/// its closing quote. Two quotes in a row stand for one; `'` is the only quote.
pub open spec fn quoted_literal(s: Seq<char>) -> Option<(Seq<char>, Seq<char>)>
    decreases s.len(),
{
    if s.len() == 0 {
        None
    } else if s[0] != '\'' {
        match quoted_literal(s.skip(1)) {
            Some((value, rest)) => Some((seq![s[0]] + value, rest)),
            None => None,
        }
    } else if s.len() > 1 && s[1] == '\'' {
        match quoted_literal(s.skip(2)) {
            Some((value, rest)) => Some((seq!['\''] + value, rest)),
            None => None,
        }
    } else {
        Some((Seq::empty(), s.skip(1)))
    }
}

/// Where `'` alone delimits literals, a text with its quotes doubled, between quotes, is read as
/// that text and ends at the closing quote.
pub proof fn law_quoted_text_read_back(s: Seq<char>, rest: Seq<char>)
    requires
        rest.len() == 0 || rest[0] != '\'',
    ensures
        quoted_literal(doubled_quotes(s) + seq!['\''] + rest) == Some((s, rest)),
    decreases s.len(),
{
    let all = doubled_quotes(s) + seq!['\''] + rest;
    if s.len() == 0 {
        assert(all.skip(1) =~= rest);
        assert(s =~= Seq::<char>::empty());
    } else {
        let tail = s.drop_first();
        law_quoted_text_read_back(tail, rest);
        let n: int = if s[0] == '\'' {
            2
        } else {
            1
        };
        assert(all.skip(n) =~= doubled_quotes(tail) + seq!['\''] + rest);
        assert(seq![s[0]] + tail =~= s);
    }
}

/// Where `'` alone delimits literals, the script's two quoted literals are the path and the
/// arguments. Nothing is said of a reader that also takes other characters for quotes.
pub proof fn law_script_carries_path_and_args(path: Seq<char>, args: Seq<char>)
    ensures
        script_head().is_prefix_of(script_text(path, args)),
        quoted_literal(script_text(path, args).skip(script_head().len() as int)) matches Some(
            (first, rest),
        ) && first == path && " -ArgumentList '"@.is_prefix_of(rest) && (quoted_literal(
            rest.skip(" -ArgumentList '"@.len() as int),
        ) matches Some((second, end)) && second == args && " -Verb RunAs"@.is_prefix_of(end)),
{
    reveal_strlit("' -ArgumentList '");
    reveal_strlit(" -ArgumentList '");
    reveal_strlit(" -Verb RunAs");
    reveal_strlit(
        "' -Verb RunAs -PassThru -Wait;\n$exitCode = $process.ExitCode;\nWrite-Output \"EXITCODE:$exitCode\";\nexit 0;\n} catch {\nWrite-Output \"ERROR:$($_.Exception.Message)\";\nexit 1;\n}",
    );
    let script = script_text(path, args);
    let head = script_head();
    let middle = " -ArgumentList '"@;
    let tail = script_tail();
    let end = tail.skip(1);
    let second = doubled_quotes(args) + seq!['\''] + end;
    let rest = middle + second;
    assert(script.subrange(0, head.len() as int) =~= head);
    assert(script.skip(head.len() as int) =~= doubled_quotes(path) + seq!['\''] + rest);
    law_quoted_text_read_back(path, rest);
    assert(rest.skip(middle.len() as int) =~= second);
    assert(rest.subrange(0, middle.len() as int) =~= middle);
    law_quoted_text_read_back(args, end);
    assert(end.subrange(0, " -Verb RunAs"@.len() as int) =~= " -Verb RunAs"@);
}

/// The digits of a decimal number are neither white space nor letters.
proof fn lemma_decimal_chars(n: int)
    ensures
        decimal(n).len() > 0,
        forall|i: int|
            0 <= i < decimal(n).len() ==> ('0' <= #[trigger] decimal(n)[i] <= '9' || decimal(n)[i]
                == '-'),
{
    lemma_decimal_digits(
        if n < 0 {
            (-n) as nat
        } else {
            n as nat
        },
    );
}

/// The exit code that the script reports is the one that is read, and the report is not taken for
/// a refusal of rights.
pub proof fn law_reported_code_read_back(code: i32)
    ensures
        reported_code("EXITCODE:"@ + decimal(code as int) + "\r\n"@) == Some(code),
        !rights_denied("EXITCODE:"@ + decimal(code as int) + "\r\n"@),
{
    reveal_strlit("EXITCODE:");
    reveal_strlit("\r\n");
    reveal_strlit("ERROR:");
    let key = "EXITCODE:"@;
    let digits = decimal(code as int);
    let output = key + digits + "\r\n"@;
    lemma_decimal_chars(code as int);
    let line = key + digits;
    assert(output =~= line.push('\r') + seq!['\n'] + Seq::<char>::empty());
    lemma_first_line(line.push('\r'), Seq::empty());
    assert(without_return(line.push('\r')) =~= line);
    assert(lines_of(output) =~= seq![line]);
    assert(line.subrange(0, key.len() as int) =~= key);
    assert(line.skip(key.len() as int) =~= digits);
    assert(!key.is_prefix_of(digits)) by {
        if key.is_prefix_of(digits) {
            assert(digits.subrange(0, key.len() as int)[0] == digits[0]);
        }
    }
    assert(without_prefixes(digits, key) == digits);
    assert(without_prefixes(line, key) == digits);
    assert(trimmed(digits) == digits);
    law_decimal_read_back(code);
    if contains_text(output, "ERROR:"@) {
        let at = choose|at: int| occurs_at(output, "ERROR:"@, at);
        assert(output.subrange(at, at + "ERROR:"@.len())[1] == 'R');
        assert(output[at + 1] == 'R');
    }
}

} // verus!
