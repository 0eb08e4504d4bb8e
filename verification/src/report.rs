//! The text that a search shows: its banner, its matches, its progress and its
//! summary.

use crate::pattern::{ParsedPattern, PatternView};
use crate::record::{MatchOutput, MatchRecord};
use crate::search::{PlanView, SearchPlan};
use vstd::prelude::*;

verus! {

/// The text of one digit below sixteen, letters in lower case. A number past
/// fifteen is shown as fifteen.
pub open spec fn digit_text(d: nat) -> Seq<char> {
    if d == 0 {
        "0"@
    } else if d == 1 {
        "1"@
    } else if d == 2 {
        "2"@
    } else if d == 3 {
        "3"@
    } else if d == 4 {
        "4"@
    } else if d == 5 {
        "5"@
    } else if d == 6 {
        "6"@
    } else if d == 7 {
        "7"@
    } else if d == 8 {
        "8"@
    } else if d == 9 {
        "9"@
    } else if d == 10 {
        "a"@
    } else if d == 11 {
        "b"@
    } else if d == 12 {
        "c"@
    } else if d == 13 {
        "d"@
    } else if d == 14 {
        "e"@
    } else {
        "f"@
    }
}

/// A number in decimal, without leading zeros.
pub open spec fn decimal_text(n: nat) -> Seq<char>
    decreases n,
{
    if n < 10 {
        digit_text(n)
    } else {
        decimal_text(n / 10) + digit_text(n % 10)
    }
}

/// A byte as two hexadecimal digits in lower case.
pub open spec fn byte_text(b: u8) -> Seq<char> {
    digit_text((b / 16) as nat) + digit_text((b % 16) as nat)
}

/// Bytes as two hexadecimal digits each, separated by a comma and a space.
pub open spec fn byte_list_text(bytes: Seq<u8>) -> Seq<char>
    decreases bytes.len(),
{
    if bytes.len() == 0 {
        Seq::empty()
    } else if bytes.len() == 1 {
        byte_text(bytes[0])
    } else {
        byte_list_text(bytes.drop_last()) + ", "@ + byte_text(bytes.last())
    }
}

/// What is said of a pattern: the expression of a regular expression; of a
/// byte pattern its needle in square brackets and, on a line of its own, the
/// unpaired nibble where there is one.
pub open spec fn pattern_text(pattern: PatternView) -> Seq<char> {
    match pattern {
        PatternView::RegexMatch { pattern } => "  Using regex: "@ + pattern + "\n"@,
        PatternView::ByteMatch { needle, odd_nibble } => "  Looking for bytes: ["@ + byte_list_text(
            needle,
        ) + "]\n"@ + match odd_nibble {
            Some(nibble) => "  Plus uneven nibble: "@ + byte_text(nibble) + "\n"@,
            None => Seq::empty(),
        },
    }
}

/// What is said of one end of the address: nothing without a pattern string,
/// else the string under `label` and, where it was parsed, the pattern.
pub open spec fn end_text(label: Seq<char>, written: Option<Seq<char>>, parsed: Option<PatternView>) -> Seq<
    char,
> {
    match written {
        Some(text) => label + text + "\n"@ + match parsed {
            Some(pattern) => pattern_text(pattern),
            None => Seq::empty(),
        },
        None => Seq::empty(),
    }
}

/// The banner of a search: the number of threads, what is looked for at the
/// start and at the end of the address, and the number of addresses wanted.
pub open spec fn banner_text(
    threads: nat,
    starts_with: Option<Seq<char>>,
    ends_with: Option<Seq<char>>,
    plan: PlanView,
    target: nat,
) -> Seq<char> {
    "Generating vanity addresses with "@ + decimal_text(threads) + " threads...\n"@ + end_text(
        "Starts with: "@,
        starts_with,
        plan.prefix,
    ) + end_text("Ends with: "@, ends_with, plan.suffix) + "Target: "@ + decimal_text(target)
        + " addresses\n"@
}

/// What is shown of a match. With a key file: one line with ordinal, target,
/// address and the file's path, and nothing of the key. Without: ordinal and
/// target, the address, and the encoded key, a line each.
pub open spec fn match_text(
    ordinal: nat,
    target: nat,
    address: Seq<char>,
    output: MatchOutput,
) -> Seq<char> {
    "Found match "@ + decimal_text(ordinal) + "/"@ + decimal_text(target) + match output {
        MatchOutput::KeyFile { path } => ": "@ + address + " -> "@ + path@,
        MatchOutput::EncodedKey { encoded } => ":\nAddress: "@ + address + "\nPrivate Key: "@
            + encoded@ + "\n"@,
    }
}

/// The progress line: it returns to the start of the line and overwrites what
/// was there.
pub open spec fn progress_text(attempted: nat, found: nat) -> Seq<char> {
    "\rTried: "@ + decimal_text(attempted) + " addresses, found: "@ + decimal_text(found)
}

/// The last line of a search.
pub open spec fn summary_text(found: nat, persisted: bool) -> Seq<char> {
    "\nCompleted! Generated "@ + decimal_text(found) + " vanity addresses"@ + if persisted {
        " and saved to files."@
    } else {
        "."@
    }
}

/// The text of the digit `d`; a number past fifteen is shown as fifteen.
pub fn digit(d: usize) -> (text: &'static str)
    ensures
        text@ == digit_text(d as nat),
{
    if d == 0 {
        "0"
    } else if d == 1 {
        "1"
    } else if d == 2 {
        "2"
    } else if d == 3 {
        "3"
    } else if d == 4 {
        "4"
    } else if d == 5 {
        "5"
    } else if d == 6 {
        "6"
    } else if d == 7 {
        "7"
    } else if d == 8 {
        "8"
    } else if d == 9 {
        "9"
    } else if d == 10 {
        "a"
    } else if d == 11 {
        "b"
    } else if d == 12 {
        "c"
    } else if d == 13 {
        "d"
    } else if d == 14 {
        "e"
    } else {
        "f"
    }
}

/// `n` in decimal.
pub fn decimal(n: usize) -> (text: String)
    ensures
        text@ == decimal_text(n as nat),
    decreases n,
{
    if n < 10 {
        digit(n).to_owned()
    } else {
        decimal(n / 10).concat(digit(n % 10))
    }
}

/// `b` as two hexadecimal digits.
pub fn byte_hex(b: u8) -> (text: String)
    ensures
        text@ == byte_text(b),
{
    digit((b / 16) as usize).to_owned().concat(digit((b % 16) as usize))
}

/// `bytes` as a list of hexadecimal pairs.
pub fn byte_list(bytes: &Vec<u8>) -> (text: String)
    ensures
        text@ == byte_list_text(bytes@),
{
    let mut text = String::new();
    let mut i: usize = 0;
    while i < bytes.len()
        invariant
            i <= bytes.len(),
            text@ == byte_list_text(bytes@.take(i as int)),
        decreases bytes.len() - i,
    {
        proof {
            let next = bytes@.take(i + 1);
            assert(next.drop_last() =~= bytes@.take(i as int));
            assert(next.last() == bytes@[i as int]);
            assert(next[0] == bytes@[0]);
            assert(Seq::<char>::empty() + byte_text(bytes@[i as int]) =~= byte_text(
                bytes@[i as int],
            ));
        }
        if i > 0 {
            text = text.concat(", ");
        }
        text = text.concat(byte_hex(bytes[i]).as_str());
        i = i + 1;
    }
    assert(bytes@.take(bytes.len() as int) =~= bytes@);
    text
}

/// What is said of `pattern`, as [`pattern_text`] has it.
pub fn describe_pattern(pattern: &ParsedPattern) -> (text: String)
    ensures
        text@ == pattern_text(pattern@),
{
    match pattern {
        ParsedPattern::RegexMatch { pattern } => "  Using regex: ".to_owned().concat(
            pattern.as_str(),
        ).concat("\n"),
        ParsedPattern::ByteMatch { needle, odd_nibble } => {
            let list = "  Looking for bytes: [".to_owned().concat(byte_list(needle).as_str()).concat(
                "]\n",
            );
            match odd_nibble {
                Some(nibble) => {
                    let extra = "  Plus uneven nibble: ".to_owned().concat(
                        byte_hex(*nibble).as_str(),
                    ).concat("\n");
                    list.concat(extra.as_str())
                },
                None => {
                    assert(list@ + Seq::<char>::empty() =~= list@);
                    list
                },
            }
        },
    }
}

/// What is said of one end of the address, as [`end_text`] has it.
pub fn describe_end(label: &str, written: &Option<String>, parsed: &Option<ParsedPattern>) -> (text:
    String)
    ensures
        text@ == end_text(
            label@,
            match *written {
                Some(w) => Some(w@),
                None => None,
            },
            match *parsed {
                Some(p) => Some(p@),
                None => None,
            },
        ),
{
    match written {
        Some(w) => {
            let head = label.to_owned().concat(w.as_str()).concat("\n");
            match parsed {
                Some(pattern) => head.concat(describe_pattern(pattern).as_str()),
                None => {
                    assert(head@ + Seq::<char>::empty() =~= head@);
                    head
                },
            }
        },
        None => String::new(),
    }
}

/// The banner of a search that runs `plan` on `threads` threads for `target`
/// addresses; `starts_with` and `ends_with` are the pattern strings as given.
pub fn banner(
    threads: usize,
    starts_with: &Option<String>,
    ends_with: &Option<String>,
    plan: &SearchPlan,
    target: usize,
) -> (text: String)
    ensures
        text@ == banner_text(
            threads as nat,
            match *starts_with {
                Some(w) => Some(w@),
                None => None,
            },
            match *ends_with {
                Some(w) => Some(w@),
                None => None,
            },
            plan@,
            target as nat,
        ),
{
    "Generating vanity addresses with ".to_owned().concat(decimal(threads).as_str()).concat(
        " threads...\n",
    ).concat(describe_end("Starts with: ", starts_with, &plan.prefix).as_str()).concat(
        describe_end("Ends with: ", ends_with, &plan.suffix).as_str(),
    ).concat("Target: ").concat(decimal(target).as_str()).concat(" addresses\n")
}

/// What is shown of the match `record` in a search for `target` addresses.
pub fn describe_match(record: &MatchRecord, target: usize) -> (text: String)
    ensures
        text@ == match_text(record.ordinal as nat, target as nat, record.address@, record.output),
{
    let head = "Found match ".to_owned().concat(decimal(record.ordinal).as_str()).concat(
        "/",
    ).concat(decimal(target).as_str());
    match &record.output {
        MatchOutput::KeyFile { path } => {
            let tail = ": ".to_owned().concat(record.address.as_str()).concat(" -> ").concat(
                path.as_str(),
            );
            head.concat(tail.as_str())
        },
        MatchOutput::EncodedKey { encoded } => {
            let tail = ":\nAddress: ".to_owned().concat(record.address.as_str()).concat(
                "\nPrivate Key: ",
            ).concat(encoded.as_str()).concat("\n");
            head.concat(tail.as_str())
        },
    }
}

/// The progress line after `attempted` attempts and `found` matches.
pub fn progress_line(attempted: usize, found: usize) -> (text: String)
    ensures
        text@ == progress_text(attempted as nat, found as nat),
{
    "\rTried: ".to_owned().concat(decimal(attempted).as_str()).concat(
        " addresses, found: ",
    ).concat(decimal(found).as_str())
}

/// The last line of a search that found `found` addresses.
pub fn summary_line(found: usize, persisted: bool) -> (text: String)
    ensures
        text@ == summary_text(found as nat, persisted),
{
    let head = "\nCompleted! Generated ".to_owned().concat(decimal(found).as_str()).concat(
        " vanity addresses",
    );
    if persisted {
        head.concat(" and saved to files.")
    } else {
        head.concat(".")
    }
}

} // verus!
