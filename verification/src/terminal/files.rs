//! The file names that the output of a child mentions.
//!
//! A name is a longest run of letters, digits and the characters
//! `/ . _ - ~ +`. Output mentions a name as a file in three forms: the
//! name with a colon and a line number after it (`src/main.rs:12`), unless
//! the name is a number itself; the name after the words `error in`; and
//! the name after the word `editing`. The words stand one blank apart.

use vstd::prelude::*;

verus! {

/// Whether a byte can stand in a name.
pub open spec fn is_name_byte(b: u8) -> bool {
    (0x30 <= b <= 0x39) || (0x41 <= b <= 0x5A) || (0x61 <= b <= 0x7A) || b == 0x2F || b == 0x2E
        || b == 0x5F || b == 0x2D || b == 0x7E || b == 0x2B
}

/// Whether a byte is a decimal digit.
pub open spec fn is_digit(b: u8) -> bool {
    0x30 <= b <= 0x39
}

/// Where the run of name bytes that begins at `from` ends.
pub open spec fn name_end(bytes: Seq<u8>, from: int) -> int
    decreases bytes.len() - from,
{
    if from < 0 || from >= bytes.len() || !is_name_byte(bytes[from]) {
        from
    } else {
        name_end(bytes, from + 1)
    }
}

/// What the names before the scanner's place say of the name to come.
#[derive(Clone, Copy, Debug, PartialEq, Eq, Structural)]
pub enum Lead {
    /// Nothing.
    Nothing,
    /// The word `error` stands one blank before it.
    Error,
    /// The words `error in` stand one blank before it.
    ErrorIn,
    /// The word `editing` stands one blank before it.
    Editing,
}

/// The bytes of the word `error`.
pub open spec fn word_error() -> Seq<u8> {
    seq![0x65u8, 0x72u8, 0x72u8, 0x6Fu8, 0x72u8]
}

/// The bytes of the word `in`.
pub open spec fn word_in() -> Seq<u8> {
    seq![0x69u8, 0x6Eu8]
}

/// The bytes of the word `editing`.
pub open spec fn word_editing() -> Seq<u8> {
    seq![0x65u8, 0x64u8, 0x69u8, 0x74u8, 0x69u8, 0x6Eu8, 0x67u8]
}

/// Whether the name that ends at `end` is followed by one blank and
/// another name.
pub open spec fn leads_on(bytes: Seq<u8>, end: int) -> bool {
    end + 1 < bytes.len() && bytes[end] == 0x20 && is_name_byte(bytes[end + 1])
}

/// Whether the name that ends at `end` has a colon and a digit after it.
pub open spec fn has_line_number(bytes: Seq<u8>, end: int) -> bool {
    end + 1 < bytes.len() && bytes[end] == 0x3A && is_digit(bytes[end + 1])
}

/// Whether a name holds nothing but digits.
pub open spec fn is_number(name: Seq<u8>) -> bool {
    forall|i: int| 0 <= i < name.len() ==> is_digit(#[trigger] name[i])
}

/// Whether the name from `from` to `end` is mentioned as a file.
pub open spec fn is_mention(bytes: Seq<u8>, from: int, end: int, lead: Lead) -> bool {
    lead == Lead::ErrorIn || lead == Lead::Editing || (has_line_number(bytes, end) && !is_number(
        bytes.subrange(from, end),
    ))
}

/// What `name`, with `lead` before it, says of the name after it.
pub open spec fn lead_after(name: Seq<u8>, lead: Lead) -> Lead {
    if name == word_editing() {
        Lead::Editing
    } else if name == word_error() {
        Lead::Error
    } else if lead == Lead::Error && name == word_in() {
        Lead::ErrorIn
    } else {
        Lead::Nothing
    }
}

/// The names that the bytes from `from` on mention as files, in order,
/// where `lead` says what stands before `from`.
pub open spec fn mentions_from(bytes: Seq<u8>, from: int, lead: Lead) -> Seq<Seq<u8>>
    decreases bytes.len() - from,
{
    if from < 0 || from >= bytes.len() {
        Seq::empty()
    } else if !is_name_byte(bytes[from]) {
        mentions_from(bytes, from + 1, Lead::Nothing)
    } else {
        proof {
            lemma_name_end(bytes, from);
        }
        let end = name_end(bytes, from);
        let name = bytes.subrange(from, end);
        let rest = if leads_on(bytes, end) {
            mentions_from(bytes, end + 1, lead_after(name, lead))
        } else {
            mentions_from(bytes, end, Lead::Nothing)
        };
        if is_mention(bytes, from, end, lead) {
            seq![name] + rest
        } else {
            rest
        }
    }
}

/// The names that the bytes mention as files, in order.
pub open spec fn mentions(bytes: Seq<u8>) -> Seq<Seq<u8>> {
    mentions_from(bytes, 0, Lead::Nothing)
}

/// The characters of a run of bytes of the first half of the code.
pub open spec fn ascii_text(bytes: Seq<u8>) -> Seq<char> {
    Seq::new(bytes.len(), |i: int| bytes[i] as char)
}

/// The texts of the names, in order.
pub open spec fn ascii_texts(names: Seq<Seq<u8>>) -> Seq<Seq<char>> {
    Seq::new(names.len(), |i: int| ascii_text(names[i]))
}

/// A run of name bytes ends after its beginning and within the bytes, and
/// holds name bytes only.
pub proof fn lemma_name_end(bytes: Seq<u8>, from: int)
    requires
        0 <= from <= bytes.len(),
    ensures
        from <= name_end(bytes, from) <= bytes.len(),
        from < bytes.len() && is_name_byte(bytes[from]) ==> from < name_end(bytes, from),
        forall|i: int| from <= i < name_end(bytes, from) ==> is_name_byte(#[trigger] bytes[i]),
        name_end(bytes, from) < bytes.len() ==> !is_name_byte(bytes[name_end(bytes, from)]),
    decreases bytes.len() - from,
{
    if from < bytes.len() && is_name_byte(bytes[from]) {
        lemma_name_end(bytes, from + 1);
    }
}

/// Whether a byte can stand in a name.
fn name_byte(b: u8) -> (yes: bool)
    ensures
        yes == is_name_byte(b),
{
    (0x30 <= b && b <= 0x39) || (0x41 <= b && b <= 0x5A) || (0x61 <= b && b <= 0x7A) || b == 0x2F
        || b == 0x2E || b == 0x5F || b == 0x2D || b == 0x7E || b == 0x2B
}

/// Where the run of name bytes that begins at `from` ends.
fn find_name_end(bytes: &[u8], from: usize) -> (end: usize)
    requires
        from <= bytes@.len(),
    ensures
        end == name_end(bytes@, from as int),
        from <= end <= bytes@.len(),
{
    let mut end = from;
    while end < bytes.len() && name_byte(bytes[end])
        invariant
            from <= end <= bytes@.len(),
            name_end(bytes@, from as int) == name_end(bytes@, end as int),
        decreases bytes@.len() - end,
    {
        end += 1;
    }
    proof {
        lemma_name_end(bytes@, from as int);
    }
    end
}

/// Whether the bytes from `from` to `end` are those of `word`.
fn is_word(bytes: &[u8], from: usize, end: usize, word: &[u8]) -> (yes: bool)
    requires
        from <= end <= bytes@.len(),
    ensures
        yes == (bytes@.subrange(from as int, end as int) == word@),
{
    if end - from != word.len() {
        return false;
    }
    let mut i: usize = 0;
    while i < word.len()
        invariant
            i <= word@.len(),
            from <= end <= bytes@.len(),
            end - from == word@.len(),
            forall|j: int| 0 <= j < i ==> bytes@[from + j] == word@[j],
        decreases word@.len() - i,
    {
        if bytes[from + i] != word[i] {
            assert(bytes@.subrange(from as int, end as int)[i as int] != word@[i as int]);
            return false;
        }
        i += 1;
    }
    assert(bytes@.subrange(from as int, end as int) =~= word@);
    true
}

/// Whether the bytes from `from` to `end` are digits all.
fn all_digits(bytes: &[u8], from: usize, end: usize) -> (yes: bool)
    requires
        from <= end <= bytes@.len(),
    ensures
        yes == is_number(bytes@.subrange(from as int, end as int)),
{
    let mut i = from;
    while i < end
        invariant
            from <= i <= end,
            end <= bytes@.len(),
            forall|j: int| from <= j < i ==> is_digit(#[trigger] bytes@[j]),
        decreases end - i,
    {
        if !(0x30 <= bytes[i] && bytes[i] <= 0x39) {
            assert(!is_digit(bytes@.subrange(from as int, end as int)[i - from]));
            return false;
        }
        i += 1;
    }
    assert forall|k: int| 0 <= k < end - from implies is_digit(
        #[trigger] bytes@.subrange(from as int, end as int)[k],
    ) by {
        assert(is_digit(bytes@[from + k]));
    }
    true
}

/// The text of the bytes from `from` to `end`.
fn text_of(bytes: &[u8], from: usize, end: usize) -> (text: String)
    requires
        from <= end <= bytes@.len(),
        forall|i: int| from <= i < end ==> bytes@[i] < 0x80,
    ensures
        text@ == ascii_text(bytes@.subrange(from as int, end as int)),
{
    let mut text = String::new();
    let mut i = from;
    while i < end
        invariant
            from <= i <= end,
            end <= bytes@.len(),
            forall|j: int| from <= j < end ==> bytes@[j] < 0x80,
            text@.len() == i - from,
            forall|j: int| 0 <= j < i - from ==> (#[trigger] text@[j]) == bytes@[from + j] as char,
        decreases end - i,
    {
        text.push(bytes[i] as char);
        i += 1;
    }
    assert(text@ =~= ascii_text(bytes@.subrange(from as int, end as int)));
    text
}

/// The names that `bytes` mention as files, in order.
pub fn scan_mentions(bytes: &[u8]) -> (names: Vec<String>)
    ensures
        names@.len() == mentions(bytes@).len(),
        forall|i: int|
            0 <= i < names@.len() ==> (#[trigger] names@[i])@ == ascii_text(mentions(bytes@)[i]),
{
    let mut names: Vec<String> = Vec::new();
    let ghost mut found: Seq<Seq<u8>> = Seq::empty();
    let mut lead = Lead::Nothing;
    let mut at: usize = 0;
    let error = [0x65u8, 0x72u8, 0x72u8, 0x6Fu8, 0x72u8];
    let within = [0x69u8, 0x6Eu8];
    let editing = [0x65u8, 0x64u8, 0x69u8, 0x74u8, 0x69u8, 0x6Eu8, 0x67u8];
    assert(error@ =~= word_error());
    assert(within@ =~= word_in());
    assert(editing@ =~= word_editing());
    assert(found + mentions_from(bytes@, 0, lead) =~= mentions(bytes@));
    while at < bytes.len()
        invariant
            at <= bytes@.len(),
            error@ == word_error(),
            within@ == word_in(),
            editing@ == word_editing(),
            names@.len() == found.len(),
            forall|i: int| 0 <= i < names@.len() ==> (#[trigger] names@[i])@ == ascii_text(found[i]),
            found + mentions_from(bytes@, at as int, lead) == mentions(bytes@),
        decreases bytes@.len() - at,
    {
        if !name_byte(bytes[at]) {
            at += 1;
            lead = Lead::Nothing;
        } else {
            let end = find_name_end(bytes, at);
            proof {
                lemma_name_end(bytes@, at as int);
            }
            let ghost name = bytes@.subrange(at as int, end as int);
            let ghost rest = if leads_on(bytes@, end as int) {
                mentions_from(bytes@, end + 1, lead_after(name, lead))
            } else {
                mentions_from(bytes@, end as int, Lead::Nothing)
            };
            let numbered = end < bytes.len() && bytes[end] == 0x3A && end + 1 < bytes.len() && 0x30
                <= bytes[end + 1] && bytes[end + 1] <= 0x39;
            let led = match lead {
                Lead::ErrorIn => true,
                Lead::Editing => true,
                _ => false,
            };
            if led || (numbered && !all_digits(bytes, at, end)) {
                let text = text_of(bytes, at, end);
                names.push(text);
                proof {
                    assert(found + (seq![name] + rest) =~= found.push(name) + rest);
                    found = found.push(name);
                }
            }
            if end < bytes.len() && bytes[end] == 0x20 && end + 1 < bytes.len() && name_byte(
                bytes[end + 1],
            ) {
                lead = if is_word(bytes, at, end, editing.as_slice()) {
                    Lead::Editing
                } else if is_word(bytes, at, end, error.as_slice()) {
                    Lead::Error
                } else {
                    match lead {
                        Lead::Error => if is_word(bytes, at, end, within.as_slice()) {
                            Lead::ErrorIn
                        } else {
                            Lead::Nothing
                        },
                        _ => Lead::Nothing,
                    }
                };
                at = end + 1;
            } else {
                lead = Lead::Nothing;
                at = end;
            }
        }
    }
    assert(found =~= mentions(bytes@));
    names
}

} // verus!
