//! The names that an instance of the daemon goes by.

use crate::ble::{address_text, Address};
use crate::text::{chars_of, debug_string, debug_text, joined, same_text, string_of};
use vstd::prelude::*;

verus! {

/// `c` is a letter or digit of ASCII.
pub open spec fn is_alphanumeric(c: char) -> bool {
    ('0' <= c && c <= '9') || ('A' <= c && c <= 'Z') || ('a' <= c && c <= 'z')
}

/// `c` in lower case, if it is an ASCII letter.
pub open spec fn lowered(c: char) -> char {
    if 'A' <= c && c <= 'Z' {
        (c as u8 + 32) as char
    } else {
        c
    }
}

/// `c` may stand in a name, once it is in lower case.
pub open spec fn is_kept(c: char) -> bool {
    is_alphanumeric(c) || c == '_'
}

/// `s` in lower case, with a hyphen in place of each run of characters that may not stand
/// in a name.
pub open spec fn hyphenated(s: Seq<char>) -> Seq<char>
    decreases s.len(),
{
    if s.len() == 0 {
        s
    } else {
        let before = hyphenated(s.drop_last());
        if is_kept(s.last()) {
            before.push(lowered(s.last()))
        } else if before.len() > 0 && before.last() == '-' {
            before
        } else {
            before.push('-')
        }
    }
}

/// `s` without the hyphens that it starts or ends with.
pub open spec fn trimmed(s: Seq<char>) -> Seq<char>
    decreases s.len(),
{
    if s.len() == 0 {
        s
    } else if s[0] == '-' {
        trimmed(s.skip(1))
    } else if s.last() == '-' {
        trimmed(s.drop_last())
    } else {
        s
    }
}

/// What a name is made of `s`.
pub open spec fn sanitized(s: Seq<char>) -> Seq<char> {
    trimmed(hyphenated(s))
}

/// `s` is a valid name: lower-case ASCII letters, digits, underscores and single hyphens,
/// with no hyphen at either end.
pub open spec fn is_clean(s: Seq<char>) -> bool {
    &&& forall|i: int| 0 <= i < s.len() ==> is_clean_char(#[trigger] s[i])
    &&& forall|i: int| 0 < i < s.len() && s[i] == '-' ==> #[trigger] s[i - 1] != '-'
    &&& s.len() > 0 ==> s[0] != '-' && s.last() != '-'
}

/// `c` can stand in a valid name.
pub open spec fn is_clean_char(c: char) -> bool {
    ('0' <= c && c <= '9') || ('a' <= c && c <= 'z') || c == '_' || c == '-'
}

fn lower(c: char) -> (r: char)
    ensures
        r == lowered(c),
{
    if 'A' <= c && c <= 'Z' {
        (c as u8 + 32) as char
    } else {
        c
    }
}

fn keeps(c: char) -> (r: bool)
    ensures
        r == is_kept(c),
{
    ('0' <= c && c <= '9') || ('A' <= c && c <= 'Z') || ('a' <= c && c <= 'z') || c == '_'
}

/// Sanitize a string for use as a D-Bus name component and PipeWire node suffix.
/// Lowercases, replaces characters other than ASCII letters, digits and underscores with
/// hyphens, collapses runs, trims.
#[must_use]
pub fn sanitize_name(s: &str) -> (r: String)
    ensures
        r@ == sanitized(s@),
{
    let chars = chars_of(s);
    let mut result: Vec<char> = Vec::new();
    for i in 0..chars.len()
        invariant
            chars@ == s@,
            result@ == hyphenated(s@.take(i as int)),
    {
        let c = chars[i];
        assert(s@.take(i + 1).drop_last() =~= s@.take(i as int));
        if keeps(c) {
            result.push(lower(c));
        } else if result.len() == 0 || result[result.len() - 1] != '-' {
            result.push('-');
        }
    }
    assert(s@.take(s@.len() as int) =~= s@);
    let len: usize = result.len();
    let mut from: usize = 0;
    assert(result@.subrange(0, len as int) =~= result@);
    while from < len && result[from] == '-'
        invariant
            from <= len == result@.len(),
            trimmed(result@.subrange(from as int, len as int)) == trimmed(result@),
        decreases len - from,
    {
        assert(result@.subrange(from as int, len as int).skip(1) =~= result@.subrange(
            from + 1,
            len as int,
        ));
        from += 1;
    }
    let mut to: usize = len;
    while to > from && result[to - 1] == '-'
        invariant
            from <= to <= len == result@.len(),
            from < to ==> result@[from as int] != '-',
            trimmed(result@.subrange(from as int, to as int)) == trimmed(result@),
        decreases to - from,
    {
        assert(result@.subrange(from as int, to as int).drop_last() =~= result@.subrange(
            from as int,
            to - 1,
        ));
        to -= 1;
    }
    string_of(&result, from, to)
}

/// What is said of a name that is not valid, with the name and a valid one in quotes.
pub open spec fn invalid_name_text(name: Seq<char>, suggestion: Seq<char>) -> Seq<char> {
    "--name "@ + name
        + " contains invalid characters. Use lowercase alphanumeric, hyphens, and underscores only (e.g. --name "@
        + suggestion + ")."@
}

/// What is said of a name that is not valid, with the name and a valid one in quotes.
pub fn invalid_name_message(name: &str, suggestion: &str) -> (r: String)
    ensures
        r@ == invalid_name_text(name@, suggestion@),
{
    let mut message = joined("--name ", name);
    message.append(
        " contains invalid characters. Use lowercase alphanumeric, hyphens, and underscores only (e.g. --name ",
    );
    message.append(suggestion);
    message.append(").");
    message
}

/// Checks a name that was given by the user. One that is not valid is answered with one
/// that is.
pub fn check_name(name: &str) -> (r: Result<(), String>)
    ensures
        match r {
            Ok(()) => is_clean(name@),
            Err(message) => !is_clean(name@) && message@ == invalid_name_text(
                debug_text(name@),
                debug_text(sanitized(name@)),
            ),
        },
{
    let suggestion = sanitize_name(name);
    proof {
        lemma_sanitized_is_clean(name@);
        if is_clean(name@) {
            lemma_clean_is_kept(name@);
        }
    }
    if same_text(suggestion.as_str(), name) {
        Ok(())
    } else {
        let quoted = debug_string(name);
        let quoted_suggestion = debug_string(suggestion.as_str());
        Err(invalid_name_message(quoted.as_str(), quoted_suggestion.as_str()))
    }
}

/// The names of an instance.
#[derive(Debug)]
pub struct InstanceNames {
    /// PipeWire node name.
    pub node_name: String,
    /// D-Bus bus name.
    pub dbus_name: String,
    /// PipeWire node description (shown in audio settings).
    pub node_description: String,
}

/// The suffix of the names: the one given, or one made of the device's name, or of its
/// address where it has no name.
pub open spec fn suffix_of(
    name: Option<Seq<char>>,
    ble_name: Seq<char>,
    address: Seq<u8>,
) -> Seq<char> {
    match name {
        Some(name) => name,
        None => if ble_name.len() > 0 {
            sanitized(ble_name)
        } else {
            sanitized(address_text(address))
        },
    }
}

/// The PipeWire node name with a suffix.
pub open spec fn node_name(suffix: Seq<char>) -> Seq<char> {
    "atvvoice-"@ + suffix
}

/// The D-Bus name with a suffix.
pub open spec fn dbus_name(suffix: Seq<char>) -> Seq<char> {
    "org.atvvoice."@ + suffix
}

/// The description: the one given, or the device's name, or a general one where it has none.
pub open spec fn description_of(
    description: Option<Seq<char>>,
    ble_name: Seq<char>,
) -> Seq<char> {
    match description {
        Some(description) => description,
        None => if ble_name.len() > 0 {
            ble_name
        } else {
            "ATVVoice Microphone"@
        },
    }
}

/// What an optional text says.
pub open spec fn optional_text(text: Option<&str>) -> Option<Seq<char>> {
    match text {
        Some(text) => Some(text@),
        None => None,
    }
}

/// Derive instance names from the options and the device.
pub fn instance_names(
    name: Option<&str>,
    description: Option<&str>,
    ble_name: &str,
    address: Address,
) -> (r: InstanceNames)
    ensures
        ({
            let suffix = suffix_of(optional_text(name), ble_name@, address.0@);
            &&& r.node_name@ == node_name(suffix)
            &&& r.dbus_name@ == dbus_name(suffix)
        }),
        r.node_description@ == description_of(optional_text(description), ble_name@),
{
    let named = chars_of(ble_name).len() > 0;
    let suffix = match name {
        Some(name) => name.to_owned(),
        None => if named {
            sanitize_name(ble_name)
        } else {
            sanitize_name(address.text().as_str())
        },
    };
    let node_description = match description {
        Some(description) => description.to_owned(),
        None => if named {
            ble_name.to_owned()
        } else {
            "ATVVoice Microphone".to_owned()
        },
    };
    InstanceNames {
        node_name: joined("atvvoice-", suffix.as_str()),
        dbus_name: joined("org.atvvoice.", suffix.as_str()),
        node_description,
    }
}

/// Hyphens are single, and all characters fit in a name.
proof fn lemma_hyphenated(s: Seq<char>)
    ensures
        forall|i: int| 0 <= i < hyphenated(s).len() ==> is_clean_char(#[trigger] hyphenated(s)[i]),
        forall|i: int|
            0 < i < hyphenated(s).len() && hyphenated(s)[i] == '-' ==> #[trigger] hyphenated(s)[i
                - 1] != '-',
    decreases s.len(),
{
    if s.len() > 0 {
        lemma_hyphenated(s.drop_last());
        let before = hyphenated(s.drop_last());
        let after = hyphenated(s);
        assert(after == before || after == before.push(after.last()));
        assert(is_kept(s.last()) ==> is_clean_char(lowered(s.last())) && lowered(s.last()) != '-');
        assert forall|i: int| 0 <= i < after.len() implies is_clean_char(#[trigger] after[i]) by {
            if i < before.len() {
                assert(after[i] == before[i]);
            }
        }
        assert forall|i: int| 0 < i < after.len() && after[i] == '-' implies #[trigger] after[i - 1]
            != '-' by {
            if i < before.len() {
                assert(after[i] == before[i]);
                assert(after[i - 1] == before[i - 1]);
            }
        }
    }
}

/// Trimming takes off nothing but hyphens, at the ends.
proof fn lemma_trimmed(s: Seq<char>)
    requires
        forall|i: int| 0 <= i < s.len() ==> is_clean_char(#[trigger] s[i]),
        forall|i: int| 0 < i < s.len() && s[i] == '-' ==> #[trigger] s[i - 1] != '-',
    ensures
        is_clean(trimmed(s)),
    decreases s.len(),
{
    if s.len() > 0 {
        if s[0] == '-' {
            let rest = s.skip(1);
            assert forall|i: int| 0 <= i < rest.len() implies is_clean_char(#[trigger] rest[i]) by {
                assert(rest[i] == s[i + 1]);
            }
            assert forall|i: int| 0 < i < rest.len() && rest[i] == '-' implies #[trigger] rest[i
                - 1] != '-' by {
                assert(rest[i] == s[i + 1]);
                assert(s[(i + 1) - 1] == rest[i - 1]);
            }
            lemma_trimmed(rest);
        } else if s.last() == '-' {
            let rest = s.drop_last();
            assert forall|i: int| 0 < i < rest.len() && rest[i] == '-' implies #[trigger] rest[i
                - 1] != '-' by {
                assert(s[i - 1] == rest[i - 1]);
            }
            lemma_trimmed(rest);
        }
    }
}

/// Whatever a name is made of, it is valid.
pub proof fn lemma_sanitized_is_clean(s: Seq<char>)
    ensures
        is_clean(sanitized(s)),
{
    lemma_hyphenated(s);
    lemma_trimmed(hyphenated(s));
}

/// A string in which nothing is next to be replaced: every character is replaced on its own.
proof fn lemma_hyphenated_one_by_one(s: Seq<char>)
    requires
        forall|i: int| 0 < i < s.len() && !is_kept(s[i]) ==> is_kept(#[trigger] s[i - 1]),
    ensures
        hyphenated(s) == s.map_values(
            |c: char|
                if is_kept(c) {
                    lowered(c)
                } else {
                    '-'
                },
        ),
    decreases s.len(),
{
    let f = |c: char|
        if is_kept(c) {
            lowered(c)
        } else {
            '-'
        };
    if s.len() > 0 {
        let before = s.drop_last();
        assert forall|i: int| 0 < i < before.len() && !is_kept(before[i]) implies is_kept(
            #[trigger] before[i - 1],
        ) by {
            assert(is_kept(s[i - 1]));
        }
        lemma_hyphenated_one_by_one(before);
        if !is_kept(s.last()) && s.len() > 1 {
            let n = s.len() as int;
            assert(is_kept(s[(n - 1) - 1]));
            assert(hyphenated(before).last() == lowered(s[n - 2]));
        }
        assert(hyphenated(s) =~= s.map_values(f));
    } else {
        assert(hyphenated(s) =~= s.map_values(f));
    }
}

/// A valid name is kept as it is.
pub proof fn lemma_clean_is_kept(s: Seq<char>)
    requires
        is_clean(s),
    ensures
        sanitized(s) == s,
{
    assert forall|i: int| 0 < i < s.len() && !is_kept(s[i]) implies is_kept(#[trigger] s[i - 1]) by {
        assert(is_clean_char(s[i]));
        assert(is_clean_char(s[i - 1]));
    }
    lemma_hyphenated_one_by_one(s);
    assert forall|i: int| 0 <= i < s.len() implies hyphenated(s)[i] == s[i] by {
        assert(is_clean_char(s[i]));
    }
    assert(hyphenated(s) =~= s);
}

/// Making a name of a name changes nothing.
pub proof fn lemma_sanitize_is_idempotent(s: Seq<char>)
    ensures
        sanitized(sanitized(s)) == sanitized(s),
{
    lemma_sanitized_is_clean(s);
    lemma_clean_is_kept(sanitized(s));
}

/// The suffix is a valid name where the user gave a valid name or none.
pub proof fn lemma_suffix_is_clean(name: Option<Seq<char>>, ble_name: Seq<char>, address: Seq<u8>)
    requires
        name matches Some(name) ==> is_clean(name),
    ensures
        is_clean(suffix_of(name, ble_name, address)),
{
    lemma_sanitized_is_clean(ble_name);
    lemma_sanitized_is_clean(address_text(address));
}

/// Instances with different suffixes have different names.
pub proof fn lemma_names_differ(a: Seq<char>, b: Seq<char>)
    requires
        a != b,
    ensures
        node_name(a) != node_name(b),
        dbus_name(a) != dbus_name(b),
{
    if node_name(a) == node_name(b) {
        let n = "atvvoice-"@.len() as int;
        assert(node_name(a).skip(n) =~= a);
        assert(node_name(b).skip(n) =~= b);
    }
    if dbus_name(a) == dbus_name(b) {
        let n = "org.atvvoice."@.len() as int;
        assert(dbus_name(a).skip(n) =~= a);
        assert(dbus_name(b).skip(n) =~= b);
    }
}

/// The name made of an address is the address in lower case, with hyphens for colons.
pub proof fn lemma_name_of_address(address: Address)
    ensures
        sanitized(address_text(address.0@)) == address_text(address.0@).map_values(
            |c: char|
                if c == ':' {
                    '-'
                } else {
                    lowered(c)
                },
        ),
{
    let s = address_text(address.0@);
    let f = |c: char|
        if c == ':' {
            '-'
        } else {
            lowered(c)
        };
    assert forall|i: int| 0 <= i < 17 implies (is_kept(#[trigger] s[i]) <==> i % 3 != 2) && (i % 3
        == 2 ==> s[i] == ':') by {
        let b = address.0@[i / 3];
        assert(b / 16 < 16 && b % 16 < 16);
    }
    assert forall|i: int| 0 < i < s.len() && !is_kept(s[i]) implies is_kept(#[trigger] s[i - 1]) by {
        assert(is_kept(s[i]) <==> i % 3 != 2);
    }
    lemma_hyphenated_one_by_one(s);
    assert(hyphenated(s) =~= s.map_values(f));
    assert(is_kept(s[0]) && is_kept(s[16]));
    assert(hyphenated(s)[0] != '-' && hyphenated(s).last() != '-');
}

/// Devices with different addresses get different names where only the address is known.
pub proof fn lemma_names_of_addresses_differ(a: Address, b: Address)
    requires
        a != b,
    ensures
        suffix_of(None, seq![], a.0@) != suffix_of(None, seq![], b.0@),
{
    lemma_name_of_address(a);
    lemma_name_of_address(b);
    let s = address_text(a.0@);
    let t = address_text(b.0@);
    if suffix_of(None, seq![], a.0@) == suffix_of(None, seq![], b.0@) {
        let u = sanitized(s);
        let v = sanitized(t);
        assert forall|i: int| 0 <= i < 17 implies s[i] == t[i] by {
            assert(u[i] == v[i]);
            let x = a.0@[i / 3];
            let y = b.0@[i / 3];
            assert(x / 16 < 16 && x % 16 < 16 && y / 16 < 16 && y % 16 < 16);
        }
        assert(s =~= t);
        crate::ble::lemma_address_text_identifies(a, b);
    }
}

/// Which characters a name keeps, and how: digits, underscores and lower-case ASCII letters as
/// they are, and capital ones as the letters 32 places on.
pub proof fn lemma_kept_characters(c: char)
    ensures
        is_kept(c) <==> (48 <= c as int <= 57 || 65 <= c as int <= 90 || c as int == 95 || 97
            <= c as int <= 122),
        65 <= c as int <= 90 ==> lowered(c) as int == c as int + 32,
        !(65 <= c as int <= 90) ==> lowered(c) == c,
{
}

/// What is left of a hyphenated text once its hyphens at the ends are gone, when there is none
/// at the front but for the first place.
proof fn lemma_trimmed_by_ends(t: Seq<char>)
    requires
        forall|i: int| 0 < i < t.len() && t[i] == '-' ==> #[trigger] t[i - 1] != '-',
    ensures
        ({
            let front = if t.len() > 0 && t[0] == '-' {
                t.skip(1)
            } else {
                t
            };
            let both = if front.len() > 0 && front.last() == '-' {
                front.drop_last()
            } else {
                front
            };
            trimmed(t) == both
        }),
{
    reveal_with_fuel(trimmed, 3);
    if t.len() > 0 {
        let front = if t[0] == '-' {
            t.skip(1)
        } else {
            t
        };
        if t[0] == '-' && t.len() > 1 {
            if t[1] == '-' {
                assert(t[1 - 1] != '-');
            }
            assert(front[0] == t[1]);
        }
        if front.len() > 0 && front.last() == '-' {
            let n = t.len() as int;
            let both = front.drop_last();
            assert(front.last() == t[n - 1]);
            if both.len() > 0 {
                assert(t[(n - 1) - 1] != '-');
                assert(both.last() == t[n - 2]);
                assert(both[0] == front[0]);
            }
        }
    }
}

/// How a text is hyphenated, by its last character.
proof fn lemma_hyphenated_last(s: Seq<char>)
    requires
        s.len() > 0,
    ensures
        hyphenated(s).len() > 0,
        hyphenated(s).last() == '-' <==> !is_kept(s.last()),
{
}

/// How a name grows with the text that it is made of. A character that a name keeps is added in
/// lower case, after a hyphen where characters that it does not keep lie between it and the
/// name so far. One that it does not keep leaves the name as it is. Nothing makes an empty
/// name.
pub proof fn lemma_name_grows(s: Seq<char>, c: char)
    ensures
        sanitized(seq![]) == Seq::<char>::empty(),
        !is_kept(c) ==> sanitized(s.push(c)) == sanitized(s),
        is_kept(c) && s.len() == 0 ==> sanitized(s.push(c)) == seq![lowered(c)],
        is_kept(c) && s.len() > 0 && (is_kept(s.last()) || sanitized(s).len() == 0) ==> sanitized(
            s.push(c),
        ) == sanitized(s).push(lowered(c)),
        is_kept(c) && s.len() > 0 && !is_kept(s.last()) && sanitized(s).len() > 0 ==> sanitized(
            s.push(c),
        ) == sanitized(s).push('-').push(lowered(c)),
{
    let t = s.push(c);
    assert(t.drop_last() =~= s);
    lemma_hyphenated(s);
    lemma_hyphenated(t);
    lemma_trimmed_by_ends(hyphenated(s));
    lemma_trimmed_by_ends(hyphenated(t));
    let h = hyphenated(s);
    let k = hyphenated(t);
    assert(hyphenated(seq![]) =~= seq![]);
    assert(is_kept(c) ==> lowered(c) != '-');
    if s.len() > 0 {
        lemma_hyphenated_last(s);
        if is_kept(c) {
            assert(k == h.push(lowered(c)));
            if h[0] == '-' {
                assert(k.skip(1) =~= h.skip(1).push(lowered(c)));
                if !is_kept(s.last()) && h.len() > 1 {
                    assert(h.skip(1).last() == '-');
                    assert(k.skip(1) =~= h.skip(1).drop_last().push('-').push(lowered(c)));
                }
                assert(sanitized(t) == k.skip(1));
            } else {
                assert(sanitized(t) == k);
                if !is_kept(s.last()) {
                    assert(k =~= h.drop_last().push('-').push(lowered(c)));
                }
            }
        } else if h.last() == '-' {
            assert(k == h);
        } else {
            assert(k == h.push('-'));
            if h[0] == '-' {
                assert(k.skip(1) =~= h.skip(1).push('-'));
                assert(k.skip(1).drop_last() =~= h.skip(1));
            } else {
                assert(k.drop_last() =~= h);
            }
        }
    } else {
        assert(s =~= seq![]);
        if is_kept(c) {
            assert(k =~= seq![lowered(c)]);
        } else {
            assert(k =~= seq!['-']);
            assert(k.skip(1) =~= seq![]);
        }
    }
}

/// A name is valid exactly where it is the name made of itself.
pub proof fn lemma_valid_names_are_their_own(s: Seq<char>)
    ensures
        is_clean(s) <==> sanitized(s) == s,
{
    lemma_sanitized_is_clean(s);
    if is_clean(s) {
        lemma_clean_is_kept(s);
    }
}

/// Where the names come from. A name that is given is taken as it is; without one, the device's
/// name counts, and without that, its address. A description that is given is taken as it is;
/// without one, the device's name counts as it is.
pub proof fn lemma_names_come_from(
    given: Seq<char>,
    ble_name: Seq<char>,
    address: Seq<u8>,
)
    ensures
        node_name(suffix_of(Some(given), ble_name, address)) == "atvvoice-"@ + given,
        dbus_name(suffix_of(Some(given), ble_name, address)) == "org.atvvoice."@ + given,
        description_of(Some(given), ble_name) == given,
        ble_name.len() > 0 ==> {
            &&& node_name(suffix_of(None, ble_name, address)) == "atvvoice-"@ + sanitized(ble_name)
            &&& dbus_name(suffix_of(None, ble_name, address)) == "org.atvvoice."@ + sanitized(
                ble_name,
            )
            &&& description_of(None, ble_name) == ble_name
        },
        ble_name.len() == 0 ==> {
            &&& node_name(suffix_of(None, ble_name, address)) == "atvvoice-"@ + sanitized(
                address_text(address),
            )
            &&& dbus_name(suffix_of(None, ble_name, address)) == "org.atvvoice."@ + sanitized(
                address_text(address),
            )
            &&& description_of(None, ble_name) == "ATVVoice Microphone"@
        },
{
}

/// An option says what its text says, and what is said of an invalid name quotes the name and
/// then the suggestion.
pub proof fn lemma_texts_are_quoted(option: &str, name: Seq<char>, suggestion: Seq<char>)
    ensures
        optional_text(Some(option)) == Some(option@),
        optional_text(None) is None,
        invalid_name_text(name, suggestion) == "--name "@ + name
            + " contains invalid characters. Use lowercase alphanumeric, hyphens, and underscores only (e.g. --name "@
            + suggestion + ")."@,
{
}

} // verus!
