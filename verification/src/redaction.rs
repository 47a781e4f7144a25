//! Taking secrets out of text that is shown or logged.
use crate::text;
use crate::url;
use vstd::prelude::*;

verus! {

pub const MAX_REDACTED_ERROR_BODY_CHARS: usize = 2048;

pub const REDACTED: &'static str = "<redacted>";

/// A text without one secret, as it is and percent-encoded.
pub open spec fn without_secret(value: Seq<char>, secret: Seq<char>) -> Seq<char> {
    if secret.len() == 0 {
        value
    } else {
        let plain = text::replaced(value, secret, REDACTED@);
        if url::encoded(secret) != secret {
            text::replaced(plain, url::encoded(secret), REDACTED@)
        } else {
            plain
        }
    }
}

/// A text without the given secrets, taken out one after the other.
pub open spec fn without_secrets(value: Seq<char>, secrets: Seq<Seq<char>>) -> Seq<char>
    decreases secrets.len(),
{
    if secrets.len() == 0 {
        value
    } else {
        without_secret(without_secrets(value, secrets.drop_last()), secrets.last())
    }
}

/// A text cut short where it is too long, with three dots for what is left out.
pub open spec fn shortened(value: Seq<char>) -> Seq<char> {
    if value.len() > MAX_REDACTED_ERROR_BODY_CHARS {
        value.take(MAX_REDACTED_ERROR_BODY_CHARS as int) + "..."@
    } else {
        value
    }
}

pub open spec fn redacted(value: Seq<char>, secrets: Seq<Seq<char>>) -> Seq<char> {
    shortened(without_secrets(value, secrets))
}

pub fn truncate_error_body(value: String) -> (r: String)
    ensures
        r@ == shortened(value@),
{
    let v = text::to_chars(value.as_str());
    if v.len() > MAX_REDACTED_ERROR_BODY_CHARS {
        let head = text::from_chars(&v, 0, MAX_REDACTED_ERROR_BODY_CHARS);
        assert(head@ =~= value@.take(MAX_REDACTED_ERROR_BODY_CHARS as int));
        text::cat2(head.as_str(), "...")
    } else {
        value
    }
}

fn remove_secret(value: String, secret: &str) -> (r: String)
    ensures
        r@ == without_secret(value@, secret@),
{
    if secret.is_empty() {
        return value;
    }
    let plain = text::replace(value.as_str(), secret, REDACTED);
    let encoded = url::encode(secret);
    if text::same(encoded.as_str(), secret) {
        plain
    } else {
        proof {
            encoding_is_not_empty(secret@);
        }
        text::replace(plain.as_str(), encoded.as_str(), REDACTED)
    }
}

proof fn encoding_is_not_empty(s: Seq<char>)
    requires
        s.len() > 0,
    ensures
        url::encoded(s).len() > 0,
{
    assert(vstd::utf8::encode_utf8(s).len() > 0);
    url::encoded_text_is_plain(vstd::utf8::encode_utf8(s));
}

pub fn redact_known_secrets(value: String, secrets: &Vec<String>) -> (r: String)
    ensures
        r@ == redacted(value@, text::views(secrets@)),
{
    let mut r = value;
    let ghost all = text::views(secrets@);
    let mut i: usize = 0;
    while i < secrets.len()
        invariant
            i <= secrets@.len(),
            all == text::views(secrets@),
            r@ == without_secrets(value@, all.take(i as int)),
        decreases secrets@.len() - i,
    {
        assert(all.take(i as int + 1).drop_last() =~= all.take(i as int));
        r = remove_secret(r, secrets[i].as_str());
        i = i + 1;
    }
    assert(all.take(i as int) =~= all);
    truncate_error_body(r)
}

// ---------------------------------------------------------------------------
// Laws
// ---------------------------------------------------------------------------

/// A secret that the mark itself cannot bring back: it has no angle bracket and
/// is no part of the word in the mark.
pub open spec fn is_separable(secret: Seq<char>) -> bool {
    &&& secret.len() > 0
    &&& !secret.contains('<')
    &&& !secret.contains('>')
    &&& !text::has_text("redacted"@, secret)
}

proof fn mark_is_spelled()
    ensures
        REDACTED@ == seq!['<'] + "redacted"@ + seq!['>'],
        "redacted"@.len() == 8,
{
    reveal_strlit("<redacted>");
    reveal_strlit("redacted");
    assert(REDACTED@ =~= seq!['<'] + "redacted"@ + seq!['>']);
}

/// Behind the mark an occurrence starts only behind the mark.
proof fn mark_hides_nothing(secret: Seq<char>, rest: Seq<char>)
    requires
        is_separable(secret),
        !text::has_text(rest, secret),
    ensures
        !text::has_text(REDACTED@ + rest, secret),
{
    mark_is_spelled();
    let word = "redacted"@;
    let all = REDACTED@ + rest;
    if text::has_text(all, secret) {
        let i = choose|i: int| #[trigger] text::occurs_at(all, secret, i);
        assert(all.subrange(i, i + secret.len()) == secret);
        if i >= 10 {
            assert(rest.subrange(i - 10, i - 10 + secret.len()) =~= all.subrange(
                i,
                i + secret.len(),
            ));
            assert(text::occurs_at(rest, secret, i - 10));
        } else if i == 0 {
            assert(secret[0] == all[0]);
            assert(secret.contains('<'));
        } else if i + secret.len() > 9 {
            assert(secret[9 - i] == all[9]);
            assert(all[9] == '>');
            assert(secret.contains('>'));
        } else {
            assert(word.subrange(i - 1, i - 1 + secret.len()) =~= all.subrange(
                i,
                i + secret.len(),
            ));
            assert(text::occurs_at(word, secret, i - 1));
        }
    }
}

/// A stretch without an angle bracket at the start of the result was there before.
proof fn untouched_start(s: Seq<char>, needle: Seq<char>, k: int)
    requires
        0 <= k <= text::replaced(s, needle, REDACTED@).len(),
        !text::replaced(s, needle, REDACTED@).take(k).contains('<'),
    ensures
        k <= s.len(),
        s.take(k) == text::replaced(s, needle, REDACTED@).take(k),
    decreases s.len(),
{
    let out = text::replaced(s, needle, REDACTED@);
    if needle.len() == 0 || s.len() < needle.len() {
    } else if text::begins_with(s, needle) {
        mark_is_spelled();
        assert(out[0] == '<');
        if k > 0 {
            assert(out.take(k)[0] == '<');
            assert(out.take(k).contains('<'));
        }
        assert(s.take(0) =~= out.take(0));
    } else if k > 0 {
        let rest = text::replaced(s.drop_first(), needle, REDACTED@);
        assert(out =~= seq![s[0]] + rest);
        assert forall|j: int| 0 <= j < k - 1 implies (#[trigger] rest.take(k - 1)[j]) != '<' by {
            assert(out.take(k)[j + 1] == rest[j]);
        }
        untouched_start(s.drop_first(), needle, k - 1);
        assert(s.take(k) =~= out.take(k)) by {
            assert forall|j: int| 0 <= j < k implies s[j] == #[trigger] out[j] by {
                if j > 0 {
                    assert(s.drop_first().take(k - 1)[j - 1] == rest.take(k - 1)[j - 1]);
                }
            }
        }
    } else {
        assert(s.take(0) =~= out.take(0));
    }
}

/// Taking one needle out leaves no occurrence of it, and brings back no other
/// secret that was gone.
proof fn replacing_brings_nothing_back(s: Seq<char>, needle: Seq<char>, secret: Seq<char>)
    requires
        is_separable(secret),
        needle == secret || !text::has_text(s, secret),
    ensures
        !text::has_text(text::replaced(s, needle, REDACTED@), secret),
    decreases s.len(),
{
    let out = text::replaced(s, needle, REDACTED@);
    if needle.len() == 0 || s.len() < needle.len() {
    } else if text::begins_with(s, needle) {
        let tail = s.skip(needle.len() as int);
        if needle != secret {
            absent_from_part(s, needle.len() as int, secret);
        }
        replacing_brings_nothing_back(tail, needle, secret);
        mark_hides_nothing(secret, text::replaced(tail, needle, REDACTED@));
    } else {
        let tail = s.drop_first();
        if needle != secret {
            absent_from_part(s, 1, secret);
            assert(s.skip(1) =~= tail);
        }
        replacing_brings_nothing_back(tail, needle, secret);
        let rest = text::replaced(tail, needle, REDACTED@);
        assert(out =~= seq![s[0]] + rest);
        if text::has_text(out, secret) {
            let i = choose|i: int| #[trigger] text::occurs_at(out, secret, i);
            if i > 0 {
                assert(rest.subrange(i - 1, i - 1 + secret.len()) =~= out.subrange(
                    i,
                    i + secret.len(),
                ));
                assert(text::occurs_at(rest, secret, i - 1));
            } else {
                let k = secret.len() as int;
                assert(out.take(k) =~= secret);
                untouched_start(s, needle, k);
                assert(s.subrange(0, k) =~= secret);
                assert(text::occurs_at(s, secret, 0));
                assert(text::has_text(s, secret));
            }
        }
    }
}

proof fn absent_from_part(s: Seq<char>, from: int, secret: Seq<char>)
    requires
        0 <= from <= s.len(),
        !text::has_text(s, secret),
    ensures
        !text::has_text(s.skip(from), secret),
{
    let part = s.skip(from);
    if text::has_text(part, secret) {
        let i = choose|i: int| #[trigger] text::occurs_at(part, secret, i);
        assert(s.subrange(i + from, i + from + secret.len()) =~= part.subrange(
            i,
            i + secret.len(),
        ));
        assert(text::occurs_at(s, secret, i + from));
    }
}

proof fn secrets_stay_out(value: Seq<char>, secrets: Seq<Seq<char>>, secret: Seq<char>)
    requires
        is_separable(secret),
        secrets.contains(secret),
    ensures
        !text::has_text(without_secrets(value, secrets), secret),
    decreases secrets.len(),
{
    let init = secrets.drop_last();
    let before = without_secrets(value, init);
    let last = secrets.last();
    if last != secret {
        let i = choose|i: int| 0 <= i < secrets.len() && secrets[i] == secret;
        assert(init[i] == secret);
        secrets_stay_out(value, init, secret);
    }
    if last.len() > 0 {
        replacing_brings_nothing_back(before, last, secret);
        let plain = text::replaced(before, last, REDACTED@);
        replacing_brings_nothing_back(plain, url::encoded(last), secret);
    }
}

/// No secret is left in a redacted text, for every secret that the mark itself
/// cannot bring back and that does not end in a dot, as the three dots at the
/// end of a shortened text could complete it.
pub proof fn secrets_are_gone(value: Seq<char>, secrets: Seq<Seq<char>>, secret: Seq<char>)
    requires
        is_separable(secret),
        secret.last() != '.',
        secrets.contains(secret),
    ensures
        !text::has_text(redacted(value, secrets), secret),
{
    secrets_stay_out(value, secrets, secret);
    let full = without_secrets(value, secrets);
    let out = redacted(value, secrets);
    reveal_strlit("...");
    if text::has_text(out, secret) && full.len() > MAX_REDACTED_ERROR_BODY_CHARS {
        let i = choose|i: int| #[trigger] text::occurs_at(out, secret, i);
        let n = MAX_REDACTED_ERROR_BODY_CHARS as int;
        let end = i + secret.len();
        if end > n {
            assert(secret.last() == out[end - 1]);
            assert(out[end - 1] == "..."@[end - 1 - n]);
        } else {
            assert(full.subrange(i, end) =~= out.subrange(i, end));
            assert(text::occurs_at(full, secret, i));
        }
    }
}

/// A redacted text is at most three characters longer than the limit.
pub proof fn redacted_text_is_short(value: Seq<char>, secrets: Seq<Seq<char>>)
    ensures
        redacted(value, secrets).len() <= MAX_REDACTED_ERROR_BODY_CHARS + 3,
{
    reveal_strlit("...");
}

proof fn replacing_needs_an_occurrence(s: Seq<char>, needle: Seq<char>)
    requires
        !text::has_text(s, needle),
    ensures
        text::replaced(s, needle, REDACTED@) == s,
    decreases s.len(),
{
    if needle.len() == 0 || s.len() < needle.len() {
    } else {
        assert(!text::occurs_at(s, needle, 0));
        absent_from_part(s, 1, needle);
        assert(s.skip(1) =~= s.drop_first());
        replacing_needs_an_occurrence(s.drop_first(), needle);
        assert(seq![s[0]] + s.drop_first() =~= s);
    }
}

/// None of the secrets stands in the text, as it is or encoded.
pub open spec fn is_free_of(value: Seq<char>, secrets: Seq<Seq<char>>) -> bool {
    forall|i: int|
        #![trigger secrets[i]]
        0 <= i < secrets.len() ==> secrets[i].len() == 0 || (!text::has_text(value, secrets[i])
            && !text::has_text(value, url::encoded(secrets[i])))
}

proof fn nothing_to_take_out(value: Seq<char>, secrets: Seq<Seq<char>>)
    requires
        is_free_of(value, secrets),
    ensures
        without_secrets(value, secrets) == value,
    decreases secrets.len(),
{
    if secrets.len() > 0 {
        let init = secrets.drop_last();
        assert forall|i: int|
            #![trigger init[i]]
            0 <= i < init.len() implies init[i].len() == 0 || (!text::has_text(value, init[i])
            && !text::has_text(value, url::encoded(init[i]))) by {
            assert(init[i] == secrets[i]);
        }
        nothing_to_take_out(value, init);
        let last = secrets[secrets.len() - 1];
        if last.len() > 0 {
            replacing_needs_an_occurrence(value, last);
            replacing_needs_an_occurrence(value, url::encoded(last));
        }
    }
}

/// A text in which no secret stands, and which is not too long, stays as it is.
pub proof fn harmless_text_is_kept(value: Seq<char>, secrets: Seq<Seq<char>>)
    requires
        value.len() <= MAX_REDACTED_ERROR_BODY_CHARS,
        is_free_of(value, secrets),
    ensures
        redacted(value, secrets) == value,
{
    nothing_to_take_out(value, secrets);
}

proof fn encoded_secrets_stay_out(value: Seq<char>, secrets: Seq<Seq<char>>, secret: Seq<char>)
    requires
        is_separable(url::encoded(secret)),
        secret.len() > 0,
        secrets.contains(secret),
    ensures
        !text::has_text(without_secrets(value, secrets), url::encoded(secret)),
    decreases secrets.len(),
{
    let init = secrets.drop_last();
    let before = without_secrets(value, init);
    let last = secrets.last();
    let hidden = url::encoded(secret);
    if last != secret {
        let i = choose|i: int| 0 <= i < secrets.len() && secrets[i] == secret;
        assert(init[i] == secret);
        encoded_secrets_stay_out(value, init, secret);
        if last.len() > 0 {
            replacing_brings_nothing_back(before, last, hidden);
            let plain = text::replaced(before, last, REDACTED@);
            replacing_brings_nothing_back(plain, url::encoded(last), hidden);
        }
    } else {
        let plain = text::replaced(before, secret, REDACTED@);
        if hidden != secret {
            replacing_brings_nothing_back(plain, hidden, hidden);
        } else {
            replacing_brings_nothing_back(before, secret, hidden);
        }
    }
}

/// Nor is a secret left in the form that it has in a URL.
pub proof fn encoded_secrets_are_gone(
    value: Seq<char>,
    secrets: Seq<Seq<char>>,
    secret: Seq<char>,
)
    requires
        is_separable(url::encoded(secret)),
        secret.len() > 0,
        url::encoded(secret).last() != '.',
        secrets.contains(secret),
    ensures
        !text::has_text(redacted(value, secrets), url::encoded(secret)),
{
    encoded_secrets_stay_out(value, secrets, secret);
    let hidden = url::encoded(secret);
    let full = without_secrets(value, secrets);
    let out = redacted(value, secrets);
    reveal_strlit("...");
    if text::has_text(out, hidden) && full.len() > MAX_REDACTED_ERROR_BODY_CHARS {
        let i = choose|i: int| #[trigger] text::occurs_at(out, hidden, i);
        let n = MAX_REDACTED_ERROR_BODY_CHARS as int;
        let end = i + hidden.len();
        if end > n {
            assert(hidden.last() == out[end - 1]);
            assert(out[end - 1] == "..."@[end - 1 - n]);
        } else {
            assert(full.subrange(i, end) =~= out.subrange(i, end));
            assert(text::occurs_at(full, hidden, i));
        }
    }
}

/// What stands around a secret is kept: a text in which it stands once, between two
/// parts in which it could not begin, has the mark in its place.
pub proof fn the_mark_takes_the_place_of_the_secret(secret: Seq<char>, rest: Seq<char>)
    requires
        secret.len() > 0,
        !text::has_text(rest, secret),
    ensures
        text::replaced(secret + rest, secret, "<redacted>"@) == "<redacted>"@ + rest,
{
    let all = secret + rest;
    assert(all.subrange(0, secret.len() as int) =~= secret);
    assert(all.skip(secret.len() as int) =~= rest);
    replacing_needs_an_occurrence(rest, secret);
}

/// A text that is too long keeps its first 2048 characters, with three dots behind
/// them.
pub proof fn long_texts_keep_their_beginning(value: Seq<char>)
    ensures
        value.len() <= 2_048 ==> shortened(value) == value,
        value.len() > 2_048 ==> shortened(value) == value.take(2_048) + "..."@,
{
}

/// An empty secret takes nothing out, and any other is taken out both as it is and as
/// it stands in a URL.
pub proof fn secrets_are_taken_out_twice(value: Seq<char>, secret: Seq<char>)
    ensures
        without_secret(value, Seq::empty()) == value,
        secret.len() > 0 && url::encoded(secret) != secret ==> without_secret(value, secret)
            == text::replaced(
            text::replaced(value, secret, "<redacted>"@),
            url::encoded(secret),
            "<redacted>"@,
        ),
        secret.len() > 0 && url::encoded(secret) == secret ==> without_secret(value, secret)
            == text::replaced(value, secret, "<redacted>"@),
{
}

} // verus!
