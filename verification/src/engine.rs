//! The pattern patch engine.
//!
//! A rule is a compiled nibble pattern and a replacement template. Applying
//! a rule list to a module's bytes renders the bytes as lowercase hex (two
//! nibbles per byte), then, rule by rule in the given order, finds the
//! non-overlapping matches of the rule's pattern in the current buffer and
//! writes the resolved replacement over each match. Every replacement must
//! have exactly the nibble length of the match it replaces — a disagreement
//! is a `PatchSizeMismatch` naming the rule and the byte offset — so the
//! buffer's length never drifts, and later rules see the already-patched
//! buffer. At the end the buffer is decoded back to bytes.
//!
//! What the matcher finds is deterministic in the pattern text, the buffer
//! and the template, so it carries a name here (`rule_matches`), and the
//! whole engine pass has a functional specification (`spec_patch_module`):
//! the fold of one `rule_pass_spec` per rule, in list order, over the hex
//! rendering of the content.

use vstd::pervasive::VecAdditionalExecFns;
use vstd::prelude::*;
use vstd::string::StringSliceAdditionalSpecFns;
use vstd::utf8::encode_utf8;

use crate::errors::PatchError;
use crate::hexnib::decode_hex;
use crate::hexnib::encode_hex;
use crate::hexnib::hex_decoded;
use crate::hexnib::hex_decoding_ok;
use crate::hexnib::hex_encoding;
use crate::hexnib::lemma_hex_roundtrip;
use crate::hexnib::normalize_hex_text;
use crate::hexnib::normalized_hex_text;

verus! {

/// Declares regex::bytes::Regex so it can stand in signatures and fields;
/// its values are opaque here, and only the trusted items below touch them.
#[verifier::external_type_specification]
#[verifier::external_body]
pub struct ExRegex(regex::bytes::Regex);

/// Whether the regex compiler accepts this exact pattern text; the outcome
/// depends on the pattern bytes alone.
pub uninterp spec fn regex_ok(pattern: Seq<u8>) -> bool;

/// What the matcher compiled from `pattern` finds in `hay`, with the
/// replacement `template` resolved per match: the successive
/// non-overlapping matches, each as (start, end, expanded replacement) in
/// nibble offsets. The result depends on the three arguments alone.
pub uninterp spec fn rule_matches(pattern: Seq<u8>, hay: Seq<u8>, template: Seq<u8>) -> Seq<
    (usize, usize, Seq<u8>),
>;

/// A compiled nibble pattern, ready to be matched against the hex rendering
/// of a module's bytes, together with the model of the text it was compiled
/// from. Both fields are private and `new` is the only constructor, so a
/// value's matcher is always the one compiled from its modeled text.
pub struct PatchRegex {
    regex: regex::bytes::Regex,
    pattern: Ghost<Seq<u8>>,
}

/// An ordered rule list: each rule pairs a compiled pattern with its
/// replacement template (whitespace-insignificant nibble text, possibly
/// holding capture-group references).
pub type PatchData = Vec<(PatchRegex, String)>;

/// One resolved match in the working nibble buffer: start offset, end
/// offset (exclusive), and the fully expanded replacement nibbles.
pub type NibbleMatch = (usize, usize, Vec<u8>);

/// The text handed to the regex compiler for a rule: the multi-line flag
/// "(?m)" in front of the normalized pattern.
pub open spec fn full_pattern(pattern: Seq<u8>) -> Seq<u8> {
    seq![40u8, 63u8, 109u8, 41u8] + normalized_hex_text(pattern)
}

impl PatchRegex {
    /// The pattern text this matcher was compiled from.
    pub closed spec fn pattern_text(self) -> Seq<u8> {
        self.pattern@
    }

    /// Compiles a rule's match pattern. The pattern text is
    /// whitespace-insignificant and case-insensitive: spaces are dropped
    /// and ASCII letters lowercased, and the multi-line flag is put in
    /// front (`full_pattern`). Compilation succeeds exactly when that text
    /// is a valid pattern, and the returned rule models exactly that text;
    /// a pattern that does not compile is an `InvalidPattern` error,
    /// reported here at rule-construction time so it can never surface
    /// inside the engine.
    pub fn new(pattern: &str) -> (r: Result<PatchRegex, PatchError>)
        ensures
            r is Ok <==> regex_ok(full_pattern(encode_utf8(pattern@))),
            r matches Ok(p) ==> p.pattern_text() == full_pattern(encode_utf8(pattern@)),
            r matches Err(e) ==> e == PatchError::InvalidPattern,
    {
        // The bytes of "(?m)", the multi-line flag, in front of the pattern.
        let mut full: Vec<u8> = Vec::new();
        full.push(40);
        full.push(63);
        full.push(109);
        full.push(41);
        let pattern_bytes = pattern.as_bytes();
        let normalized = normalize_hex_text(pattern_bytes);
        full.extend_from_slice(normalized.as_slice());
        proof {
            assert(pattern_bytes@ == encode_utf8(pattern@));
            assert(full@ =~= full_pattern(encode_utf8(pattern@)));
        }
        match compile_bytes(&full) {
            Ok(re) => Ok(PatchRegex { regex: re, pattern: Ghost(full@) }),
            Err(e) => Err(e),
        }
    }
}

/// Relies on regex::bytes::Regex::new: whether a pattern compiles is a
/// function of the pattern text alone (named `regex_ok`), and an invalid
/// pattern is an `Err`, never a panic; and on core::str::from_utf8 for the
/// UTF-8 check in front of it.
#[verifier::external_body]
fn compile_bytes(pattern: &Vec<u8>) -> (r: Result<regex::bytes::Regex, PatchError>)
    ensures
        r is Ok <==> regex_ok(pattern@),
        r matches Err(e) ==> e == PatchError::InvalidPattern,
{
    let text = match core::str::from_utf8(pattern.as_slice()) {
        Ok(t) => t,
        Err(_) => return Err(PatchError::InvalidPattern),
    };
    regex::bytes::Regex::new(text).map_err(|_| PatchError::InvalidPattern)
}

/// The mathematical value of a resolved match list.
pub open spec fn match_views(ms: Seq<NibbleMatch>) -> Seq<(usize, usize, Seq<u8>)> {
    ms.map_values(|m: NibbleMatch| (m.0, m.1, m.2@))
}

/// Relies on regex::bytes::Regex::captures_iter, whose successive matches
/// are documented as non-overlapping and yielded in order of position, with
/// `Match::start() <= Match::end()` and `&hay[start..end]` the matched
/// bytes; and on regex::bytes::Captures::expand, which resolves
/// capture-group references in the replacement template. Both are
/// deterministic in the compiled pattern, the haystack and the template,
/// which names the result (`rule_matches`); the matcher stands for its
/// modeled text because `new` is the only constructor of `PatchRegex`.
#[verifier::external_body]
fn find_matches(re: &PatchRegex, hay: &Vec<u8>, template: &Vec<u8>) -> (r: Vec<NibbleMatch>)
    ensures
        match_views(r@) == rule_matches(re.pattern_text(), hay@, template@),
        forall|i: int|
            0 <= i < r@.len() ==> (#[trigger] r@[i]).0 <= r@[i].1 && r@[i].1 <= hay@.len(),
        forall|i: int| 0 <= i < r@.len() - 1 ==> (#[trigger] r@[i]).1 <= r@[i + 1].0,
{
    let mut out: Vec<NibbleMatch> = Vec::new();
    for caps in re.regex.captures_iter(hay.as_slice()) {
        let m = caps.get(0).unwrap();
        let mut expanded: Vec<u8> = Vec::new();
        caps.expand(template.as_slice(), &mut expanded);
        out.push((m.start(), m.end(), expanded));
    }
    out
}

/// The buffer with `rep` written over the range starting at `start`;
/// positions outside that range keep their value, and the length never
/// changes.
pub open spec fn splice(buf: Seq<u8>, start: int, rep: Seq<u8>) -> Seq<u8> {
    Seq::new(
        buf.len(),
        |i: int|
            if start <= i && i < start + rep.len() {
                rep[i - start]
            } else {
                buf[i]
            },
    )
}

/// What applying one rule's resolved matches to a nibble buffer yields:
/// the matches are consumed left to right; each replacement must have
/// exactly the nibble length of its match and is spliced in, and the first
/// disagreement aborts with `PatchSizeMismatch` naming the rule and the
/// byte offset (half the nibble offset) of the offending match.
pub open spec fn apply_matches_spec(
    buf: Seq<u8>,
    ms: Seq<(usize, usize, Seq<u8>)>,
    rule: usize,
) -> Result<Seq<u8>, PatchError>
    decreases ms.len(),
{
    if ms.len() == 0 {
        Ok(buf)
    } else {
        let start = ms[0].0 as int;
        let end = ms[0].1 as int;
        let rep = ms[0].2;
        if rep.len() != end - start {
            Err(PatchError::PatchSizeMismatch { rule, offset: (start / 2) as usize })
        } else {
            apply_matches_spec(splice(buf, start, rep), ms.drop_first(), rule)
        }
    }
}

/// Applying a rule's matches can never change the buffer's length, and a
/// failure is always a size mismatch naming that rule, at a byte offset
/// inside the buffer.
pub proof fn lemma_apply_matches_props(buf: Seq<u8>, ms: Seq<(usize, usize, Seq<u8>)>, rule: usize)
    requires
        forall|i: int|
            0 <= i < ms.len() ==> (#[trigger] ms[i]).0 <= ms[i].1 && ms[i].1 <= buf.len(),
    ensures
        apply_matches_spec(buf, ms, rule) matches Ok(v) ==> v.len() == buf.len(),
        apply_matches_spec(buf, ms, rule) matches Err(e) ==> (e matches
            PatchError::PatchSizeMismatch { rule: r, offset } && r == rule && offset <= buf.len()
            / 2),
    decreases ms.len(),
{
    if ms.len() > 0 {
        let start = ms[0].0 as int;
        let end = ms[0].1 as int;
        let rep = ms[0].2;
        if rep.len() == end - start {
            let buf2 = splice(buf, start, rep);
            assert(buf2.len() == buf.len());
            assert(forall|i: int|
                0 <= i < ms.drop_first().len() ==> (#[trigger] ms.drop_first()[i]).0
                    <= ms.drop_first()[i].1 && ms.drop_first()[i].1 <= buf2.len());
            lemma_apply_matches_props(buf2, ms.drop_first(), rule);
        }
    }
}

/// A rule pass that found no matches leaves the buffer exactly as it was:
/// once no pattern matches the patched buffer any more, another application
/// is a fixed point.
pub proof fn lemma_no_match_fixed_point(buf: Seq<u8>, rule: usize)
    ensures
        apply_matches_spec(buf, Seq::empty(), rule) == Ok::<Seq<u8>, PatchError>(buf),
{
}

/// Writes `rep` over `buf[start..start + rep.len()]`, leaving every other
/// position unchanged.
fn write_replacement(buf: &mut Vec<u8>, start: usize, rep: &[u8])
    requires
        start + rep@.len() <= old(buf)@.len(),
    ensures
        final(buf)@ == splice(old(buf)@, start as int, rep@),
{
    let n = buf.len();
    let mut j: usize = 0;
    while j < rep.len()
        invariant
            j <= rep@.len(),
            start + rep@.len() <= buf@.len(),
            buf@.len() == n,
            buf@.len() == old(buf)@.len(),
            forall|i: int| 0 <= i < j ==> buf@[start + i] == rep@[i],
            forall|i: int|
                0 <= i < buf@.len() && !(start <= i && i < start + j) ==> buf@[i] == old(buf)@[i],
        decreases rep@.len() - j,
    {
        buf.set(start + j, rep[j]);
        j = j + 1;
    }
    proof {
        assert(buf@ =~= splice(old(buf)@, start as int, rep@));
    }
}

/// Applies one rule's resolved matches to the working nibble buffer,
/// exactly as `apply_matches_spec` says: replacements of the right length
/// are written over their matches in order, and the first length
/// disagreement aborts with `PatchSizeMismatch` for this rule.
#[verifier::loop_isolation(false)]
pub fn apply_matches(buf: Vec<u8>, matches: &Vec<NibbleMatch>, rule: usize) -> (r: Result<
    Vec<u8>,
    PatchError,
>)
    requires
        forall|i: int|
            0 <= i < matches@.len() ==> (#[trigger] matches@[i]).0 <= matches@[i].1
                && matches@[i].1 <= buf@.len(),
    ensures
        r is Ok <==> apply_matches_spec(buf@, match_views(matches@), rule) is Ok,
        r matches Ok(v) ==> v@ == apply_matches_spec(buf@, match_views(matches@), rule)->Ok_0,
        r matches Err(e) ==> e == apply_matches_spec(buf@, match_views(matches@), rule)->Err_0,
{
    let ghost orig = buf@;
    let ghost mv = match_views(matches@);
    let mut buf = buf;
    let mut k: usize = 0;
    proof {
        assert(mv.skip(0) =~= mv);
    }
    while k < matches.len()
        invariant
            k <= matches@.len(),
            buf@.len() == orig.len(),
            apply_matches_spec(buf@, mv.skip(k as int), rule) == apply_matches_spec(
                orig,
                mv,
                rule,
            ),
        decreases matches@.len() - k,
    {
        let m = &matches[k];
        let start = m.0;
        let end = m.1;
        let rep = &m.2;
        proof {
            let ghost mk = matches@[k as int];
            assert(mv[k as int] == (mk.0, mk.1, mk.2@));
            assert(mv.skip(k as int)[0] == mv[k as int]);
            assert(mv.skip(k as int).drop_first() =~= mv.skip(k as int + 1));
        }
        if rep.len() != end - start {
            proof {
                assert(apply_matches_spec(buf@, mv.skip(k as int), rule) == Err::<
                    Seq<u8>,
                    PatchError,
                >(PatchError::PatchSizeMismatch { rule, offset: ((start as int) / 2) as usize }));
            }
            return Err(PatchError::PatchSizeMismatch { rule, offset: start / 2 });
        }
        let ghost buf_before = buf@;
        write_replacement(&mut buf, start, rep.as_slice());
        proof {
            assert(apply_matches_spec(buf_before, mv.skip(k as int), rule) == apply_matches_spec(
                splice(buf_before, start as int, rep@),
                mv.skip(k as int).drop_first(),
                rule,
            ));
        }
        k = k + 1;
    }
    proof {
        assert(mv.skip(mv.len() as int) =~= Seq::<(usize, usize, Seq<u8>)>::empty());
    }
    Ok(buf)
}

/// The template a rule's replacement text resolves to: its UTF-8 bytes,
/// normalized (spaces dropped, ASCII letters lowercased).
pub open spec fn rule_template(replace: Seq<char>) -> Seq<u8> {
    normalized_hex_text(encode_utf8(replace))
}

/// One rule's pass over the working nibble buffer: the matches its pattern
/// finds in the buffer, templates resolved, applied under the length check.
pub open spec fn rule_pass_spec(buf: Seq<u8>, rule: (PatchRegex, String), idx: usize) -> Result<
    Seq<u8>,
    PatchError,
> {
    apply_matches_spec(buf, rule_matches(rule.0.pattern_text(), buf, rule_template(rule.1@)), idx)
}

/// The whole engine pass over a working nibble buffer: one `rule_pass_spec`
/// per rule, in list order, each pass over the previous pass's output, and
/// the first failure final.
pub open spec fn apply_rules_spec(
    buf: Seq<u8>,
    rules: Seq<(PatchRegex, String)>,
    idx: usize,
) -> Result<Seq<u8>, PatchError>
    decreases rules.len(),
{
    if rules.len() == 0 {
        Ok(buf)
    } else {
        match rule_pass_spec(buf, rules[0], idx) {
            Ok(next) => apply_rules_spec(next, rules.drop_first(), (idx + 1) as usize),
            Err(e) => Err(e),
        }
    }
}

/// What `patch_module` returns: the fold of all rule passes over the hex
/// rendering of the content, decoded back to bytes at the end.
pub open spec fn spec_patch_module(rules: Seq<(PatchRegex, String)>, content: Seq<u8>) -> Result<
    Seq<u8>,
    PatchError,
> {
    match apply_rules_spec(hex_encoding(content), rules, 0) {
        Ok(buf) => if hex_decoding_ok(buf) {
            Ok(hex_decoded(buf))
        } else {
            Err(PatchError::CorruptPatchResult)
        },
        Err(e) => Err(e),
    }
}

/// Applies an ordered rule list to a module's bytes, producing a new
/// buffer: exactly `spec_patch_module`.
///
/// The bytes are rendered as lowercase hex nibbles once; each rule's
/// pattern is then matched against the current nibble buffer (so later
/// rules see earlier rules' output, by design), its replacement template is
/// normalized and resolved per match, and every substitution is checked to
/// keep the match's exact nibble length. An empty rule list returns the
/// content unchanged; a successful application always preserves the
/// content's byte length; a failure is either a `PatchSizeMismatch` naming
/// an existing rule and an in-range byte offset, or `CorruptPatchResult`
/// when the patched nibbles no longer decode to bytes.
pub fn patch_module(patches: &PatchData, content: &Vec<u8>) -> (r: Result<Vec<u8>, PatchError>)
    ensures
        r is Ok <==> spec_patch_module(patches@, content@) is Ok,
        r matches Ok(v) ==> v@ == spec_patch_module(patches@, content@)->Ok_0,
        r matches Err(e) ==> e == spec_patch_module(patches@, content@)->Err_0,
        patches@.len() == 0 ==> (r matches Ok(v) && v@ == content@),
        r matches Ok(v) ==> v@.len() == content@.len(),
        r matches Err(e) ==> (e == PatchError::CorruptPatchResult || (e matches
            PatchError::PatchSizeMismatch { rule, offset } && rule < patches@.len() && offset
            <= content@.len())),
{
    let mut buf = encode_hex(content.as_slice());
    let mut i: usize = 0;
    proof {
        assert(patches@.skip(0) =~= patches@);
    }
    while i < patches.len()
        invariant
            i <= patches@.len(),
            buf@.len() == 2 * content@.len(),
            apply_rules_spec(buf@, patches@.skip(i as int), i) == apply_rules_spec(
                hex_encoding(content@),
                patches@,
                0,
            ),
        decreases patches@.len() - i,
    {
        let rule = &patches[i];
        let replace_bytes = rule.1.as_str().as_bytes();
        let template = normalize_hex_text(replace_bytes);
        let ms = find_matches(&rule.0, &buf, &template);
        proof {
            assert(replace_bytes@ == encode_utf8(rule.1@));
            assert(template@ == rule_template(rule.1@));
            assert(patches@.skip(i as int)[0] == patches@[i as int]);
            assert(patches@.skip(i as int).drop_first() =~= patches@.skip(i as int + 1));
            assert forall|j: int|
                0 <= j < match_views(ms@).len() implies (#[trigger] match_views(ms@)[j]).0
                <= match_views(ms@)[j].1 && match_views(ms@)[j].1 <= buf@.len() by {
                assert(match_views(ms@)[j] == (ms@[j].0, ms@[j].1, ms@[j].2@));
            }
            lemma_apply_matches_props(buf@, match_views(ms@), i);
        }
        buf = match apply_matches(buf, &ms, i) {
            Ok(b) => b,
            Err(e) => {
                return Err(e);
            },
        };
        i = i + 1;
    }
    proof {
        assert(patches@.skip(patches@.len() as int) =~= Seq::<(PatchRegex, String)>::empty());
        if patches@.len() == 0 {
            lemma_hex_roundtrip(content@);
        }
    }
    match decode_hex(buf.as_slice()) {
        Ok(v) => Ok(v),
        Err(e) => Err(e),
    }
}

} // verus!
