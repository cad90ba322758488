//! Rendering of one dictionary entry as terminal text, with the number of
//! lines that the text takes.

use vstd::prelude::*;
use vstd::string::*;
use crate::entry::{forms_view, senses_view, Entry, EntryModel, Form, FormModel, Sense, SenseModel};
use crate::style::{paint, painted, Hue};
use crate::text::{
    contains_text, decimal, decimal_text, has_infix, join, join_text, strip_prefix_text,
    without_prefix,
};

verus! {

/// What upper-casing turns a string into.
pub uninterp spec fn upper_of(s: Seq<char>) -> Seq<char>;

/// Relies on str::to_uppercase: the upper-case mapping of the string, which
/// depends on its characters alone.
#[verifier::external_body]
fn uppercase(s: &str) -> (r: String)
    ensures
        r@ == upper_of(s@),
{
    s.to_uppercase()
}

pub open spec fn indent() -> Seq<char> {
    "    "@
}

/// The display name of one part of speech.
pub open spec fn normalized_pos(p: Seq<char>) -> Seq<char> {
    if p == "Suru verb - irregular"@ {
        "Irregular verb"@
    } else if p == "Ichidan verb"@ {
        "iru/eru verb"@
    } else if has_infix(p, "Godan verb"@) {
        "Godan verb"@
    } else {
        p
    }
}

/// The part-of-speech label of a sense: its normalized parts, comma-joined.
pub open spec fn pos_label(pos: Seq<Seq<char>>) -> Seq<char> {
    join(pos.map_values(|p: Seq<char>| normalized_pos(p)), ", "@)
}

/// How one sense tag shows.
pub open spec fn tag_text(t: Seq<char>) -> Seq<char> {
    if t == "Usually written using kana alone"@ {
        "(UK)"@
    } else {
        "("@ + t + ")"@
    }
}

/// The tags of a sense, each as `tag_text` shows it, with nothing between.
pub open spec fn tags_text(tags: Seq<Seq<char>>) -> Seq<char>
    decreases tags.len(),
{
    if tags.len() == 0 {
        Seq::empty()
    } else {
        tags_text(tags.drop_last()) + tag_text(tags.last())
    }
}

/// A form can be shown when it has a word or a reading.
pub open spec fn labelled(f: FormModel) -> bool {
    f.word is Some || f.reading is Some
}

/// `word[reading]`: the word falls back on the reading, the reading on the query.
pub open spec fn form_text(query: Seq<char>, f: FormModel) -> Seq<char> {
    let word = match f.word {
        Some(w) => w,
        None => f.reading.unwrap_or(Seq::empty()),
    };
    let reading = f.reading.unwrap_or(query);
    word + "["@ + reading + "]"@
}

/// The displayed JLPT level: the first tag without its `jlpt-` prefix, upper-cased.
pub open spec fn level_of(jlpt: Seq<Seq<char>>) -> Option<Seq<char>> {
    if jlpt.len() > 0 {
        Some(upper_of(without_prefix(jlpt[0], "jlpt-"@)))
    } else {
        None
    }
}

/// The tags after the primary form: `(common) ` first, then `(LEVEL) `.
pub open spec fn result_tags_text(is_common: bool, level: Option<Seq<char>>, on: bool) -> Seq<char> {
    let common = if is_common {
        painted("(common) "@, Hue::BrightGreen, on)
    } else {
        Seq::empty()
    };
    let lvl = match level {
        Some(l) => "("@ + painted(l, Hue::BrightBlue, on) + ") "@,
        None => Seq::empty(),
    };
    common + lvl
}

/// A sense gets a heading when it has glosses and a non-empty label that
/// differs from the last heading printed.
pub open spec fn sense_fresh(s: SenseModel, prev: Seq<char>) -> bool {
    s.glosses.len() > 0 && pos_label(s.parts_of_speech).len() > 0 && pos_label(
        s.parts_of_speech,
    ) != prev
}

/// The text of the sense at zero-based `index`, after the last heading
/// `prev`: nothing for a sense without glosses; otherwise the heading where
/// one is due, then `N. glosses tags`.
pub open spec fn sense_text(index: nat, s: SenseModel, prev: Seq<char>, on: bool) -> Seq<char> {
    if s.glosses.len() == 0 {
        Seq::empty()
    } else {
        let head = if sense_fresh(s, prev) {
            painted(pos_label(s.parts_of_speech), Hue::BrightBlue, on) + "\n"@ + indent()
        } else {
            Seq::empty()
        };
        head + painted(decimal(index + 1) + "."@, Hue::BrightBlack, on) + " "@ + join(
            s.glosses,
            ", "@,
        ) + " "@ + tags_text(s.tags)
    }
}

/// The last heading after a sense: its label where it got a heading.
pub open spec fn heading_after(s: SenseModel, prev: Seq<char>) -> Seq<char> {
    if sense_fresh(s, prev) {
        pos_label(s.parts_of_speech)
    } else {
        prev
    }
}


/// `n` where it fits in a `usize`; the largest `usize` otherwise.
pub open spec fn capped(n: nat) -> usize {
    if n > usize::MAX {
        usize::MAX
    } else {
        n as usize
    }
}

/// The sense lines rendered so far, their count, and the last part-of-speech
/// heading printed.
pub struct SenseRun {
    pub text: Seq<char>,
    pub lines: nat,
    pub prev: Seq<char>,
}

/// Renders the senses in order. A sense without glosses adds nothing; a
/// sense whose non-empty label differs from the last heading gets a heading
/// line of its own.
pub open spec fn sense_run(ss: Seq<SenseModel>, on: bool) -> SenseRun
    decreases ss.len(),
{
    if ss.len() == 0 {
        SenseRun { text: Seq::empty(), lines: 0, prev: Seq::empty() }
    } else {
        let r = sense_run(ss.drop_last(), on);
        let s = ss.last();
        if s.glosses.len() == 0 {
            r
        } else {
            SenseRun {
                text: r.text + indent() + sense_text((ss.len() - 1) as nat, s, r.prev, on)
                    + "\n"@,
                lines: r.lines + if sense_fresh(s, r.prev) { 2nat } else { 1nat },
                prev: heading_after(s, r.prev),
            }
        }
    }
}

/// The "Other forms" block: a heading and the alternate forms, comma-joined.
pub open spec fn other_forms_text(query: Seq<char>, forms: Seq<FormModel>, on: bool) -> Seq<char> {
    if forms.len() > 1 {
        indent() + painted("Other forms"@, Hue::BrightBlue, on) + "\n"@ + indent() + join(
            forms.skip(1).map_values(|f: FormModel| form_text(query, f)),
            ", "@,
        ) + "\n"@
    } else {
        Seq::empty()
    }
}

/// An entry can be rendered when it has forms, each with a word or a
/// reading, and a list of senses.
pub open spec fn renderable(e: EntryModel) -> bool {
    &&& e.forms.len() > 0
    &&& e.senses is Some
    &&& forall|i: int| 0 <= i < e.forms.len() ==> labelled(#[trigger] e.forms[i])
}

/// The text of a renderable entry.
pub open spec fn entry_text(query: Seq<char>, e: EntryModel, on: bool) -> Seq<char> {
    form_text(query, e.forms[0]) + " "@ + result_tags_text(e.is_common, level_of(e.jlpt), on)
        + "\n"@ + sense_run(e.senses.unwrap(), on).text + other_forms_text(query, e.forms, on)
}

/// The number of lines of a renderable entry: the header, each rendered
/// sense, each heading, and two for the "Other forms" block.
pub open spec fn entry_lines(e: EntryModel) -> nat {
    1 + sense_run(e.senses.unwrap(), false).lines + if e.forms.len() > 1 { 2nat } else { 0nat }
}

/// What `render` gives for an entry.
pub open spec fn rendered(query: Seq<char>, e: EntryModel, on: bool) -> Option<(Seq<char>, nat)> {
    if renderable(e) {
        Some((entry_text(query, e, on), entry_lines(e)))
    } else {
        None
    }
}

/// Colouring changes no line count and no heading.
pub proof fn lemma_run_lines_uncoloured(ss: Seq<SenseModel>, on: bool)
    ensures
        sense_run(ss, on).lines == sense_run(ss, false).lines,
        sense_run(ss, on).prev == sense_run(ss, false).prev,
    decreases ss.len(),
{
    if ss.len() > 0 {
        lemma_run_lines_uncoloured(ss.drop_last(), on);
    }
}

/// A sense without English glosses adds no text and no line, whether in the
/// run of senses or in the whole entry.
pub proof fn lemma_glossless_sense_adds_nothing(query: Seq<char>, e: EntryModel, s: SenseModel, on: bool)
    requires
        s.glosses.len() == 0,
        e.senses is Some,
    ensures
        sense_run(e.senses.unwrap().push(s), on) == sense_run(e.senses.unwrap(), on),
        ({
            let e2 = EntryModel { senses: Some(e.senses.unwrap().push(s)), ..e };
            &&& renderable(e2) == renderable(e)
            &&& entry_text(query, e2, on) == entry_text(query, e, on)
            &&& entry_lines(e2) == entry_lines(e)
        }),
{
    let ss = e.senses.unwrap();
    assert(ss.push(s).drop_last() =~= ss);
}

/// The tag text of a concatenation is the concatenation of the tag texts.
pub proof fn lemma_tags_text_append(a: Seq<Seq<char>>, b: Seq<Seq<char>>)
    ensures
        tags_text(a + b) == tags_text(a) + tags_text(b),
    decreases b.len(),
{
    if b.len() == 0 {
        assert(a + b =~= a);
        assert(tags_text(b) =~= Seq::<char>::empty());
        assert(tags_text(a) + tags_text(b) =~= tags_text(a));
    } else {
        lemma_tags_text_append(a, b.drop_last());
        assert((a + b).drop_last() =~= a + b.drop_last());
        assert((a + b).last() == b.last());
    }
}

/// Every tag of a sense shows, at its own place in the tag text, in
/// parentheses, and "Usually written using kana alone" shows as "(UK)".
pub proof fn lemma_each_tag_shown(tags: Seq<Seq<char>>, i: int)
    requires
        0 <= i < tags.len(),
    ensures
        tags_text(tags) == tags_text(tags.take(i)) + tag_text(tags[i]) + tags_text(tags.skip(i + 1)),
        tags[i] == "Usually written using kana alone"@ ==> tag_text(tags[i]) == "(UK)"@,
        tags[i] != "Usually written using kana alone"@ ==> tag_text(tags[i]) == "("@ + tags[i] + ")"@,
{
    assert(tags =~= tags.take(i) + seq![tags[i]] + tags.skip(i + 1));
    lemma_tags_text_append(tags.take(i) + seq![tags[i]], tags.skip(i + 1));
    lemma_tags_text_append(tags.take(i), seq![tags[i]]);
    let one = seq![tags[i]];
    assert(one.drop_last() =~= Seq::<Seq<char>>::empty());
    assert(one.last() == tags[i]);
    assert(tags_text(one.drop_last()) =~= Seq::<char>::empty());
    assert(Seq::<char>::empty() + tag_text(tags[i]) =~= tag_text(tags[i]));
    assert(tags_text(one) =~= tag_text(tags[i]));
}

proof fn lemma_capped_add(a: nat, k: nat)
    ensures
        (if capped(a) + k > usize::MAX { usize::MAX as int } else { capped(a) + k }) == capped(a + k) as int,
{
}

fn text_eq(a: &str, b: &str) -> (r: bool)
    ensures
        r == (a@ == b@),
{
    let x = a.to_owned();
    let y = b.to_owned();
    x == y
}

/// The display name of one part of speech.
pub fn normalize_pos(p: &str) -> (r: String)
    ensures
        r@ == normalized_pos(p@),
{
    proof {
        reveal_strlit("Suru verb - irregular");
        reveal_strlit("Irregular verb");
        reveal_strlit("Ichidan verb");
        reveal_strlit("iru/eru verb");
        reveal_strlit("Godan verb");
    }
    if text_eq(p, "Suru verb - irregular") {
        String::from_str("Irregular verb")
    } else if text_eq(p, "Ichidan verb") {
        String::from_str("iru/eru verb")
    } else if contains_text(p, "Godan verb") {
        String::from_str("Godan verb")
    } else {
        p.to_owned()
    }
}

/// The part-of-speech label of a sense.
pub fn pos_label_text(pos: &Vec<String>) -> (r: String)
    ensures
        r@ == pos_label(pos.deep_view()),
{
    let mut parts: Vec<String> = Vec::new();
    let mut i: usize = 0;
    while i < pos.len()
        invariant
            i <= pos.len(),
            parts.deep_view() == pos.deep_view().take(i as int).map_values(
                |p: Seq<char>| normalized_pos(p),
            ),
        decreases pos.len() - i,
    {
        let n = normalize_pos(pos[i].as_str());
        let ghost before = parts.deep_view();
        parts.push(n);
        proof {
            assert(parts.deep_view() =~= before.push(n@));
            assert(pos.deep_view().take(i + 1) == pos.deep_view().take(i as int).push(pos.deep_view()[i as int]));
            assert(parts.deep_view() =~= pos.deep_view().take(i + 1).map_values(
                |p: Seq<char>| normalized_pos(p),
            ));
        }
        i = i + 1;
    }
    proof {
        assert(pos.deep_view().take(i as int) == pos.deep_view());
    }
    proof {
        reveal_strlit(", ");
    }
    join_text(&parts, ", ")
}

/// How one sense tag shows.
pub fn format_sense_tag(t: &str) -> (r: String)
    ensures
        r@ == tag_text(t@),
{
    proof {
        reveal_strlit("Usually written using kana alone");
        reveal_strlit("(UK)");
        reveal_strlit("(");
        reveal_strlit(")");
    }
    if text_eq(t, "Usually written using kana alone") {
        String::from_str("(UK)")
    } else {
        let mut r = String::from_str("(");
        r.append(t);
        r.append(")");
        r
    }
}

/// The tags of a sense, each as `format_sense_tag` shows it, run together.
pub fn format_sense_tags(tags: &Vec<String>) -> (r: String)
    ensures
        r@ == tags_text(tags.deep_view()),
{
    let mut r = String::new();
    let mut i: usize = 0;
    while i < tags.len()
        invariant
            i <= tags.len(),
            r@ == tags_text(tags.deep_view().take(i as int)),
        decreases tags.len() - i,
    {
        proof {
            assert(tags.deep_view().take(i + 1).drop_last() == tags.deep_view().take(i as int));
        }
        let t = format_sense_tag(tags[i].as_str());
        r.append(t.as_str());
        i = i + 1;
    }
    proof {
        assert(tags.deep_view().take(i as int) == tags.deep_view());
    }
    r
}

/// `word[reading]` of a form, or `None` where it has neither a word nor a
/// reading.
pub fn format_form(query: &str, f: &Form) -> (r: Option<String>)
    ensures
        r is Some <==> labelled(f@),
        r matches Some(t) ==> t@ == form_text(query@, f@),
{
    let mut r = match &f.word {
        Some(w) => w.clone(),
        None => match &f.reading {
            Some(x) => x.clone(),
            None => {
                return None;
            },
        },
    };
    r.append("[");
    match &f.reading {
        Some(x) => r.append(x.as_str()),
        None => r.append(query),
    }
    r.append("]");
    proof {
        reveal_strlit("[");
        reveal_strlit("]");
    }
    Some(r)
}

/// The displayed JLPT level of an entry, if it has any level tag.
pub fn format_level(jlpt: &Vec<String>) -> (r: Option<String>)
    ensures
        r.deep_view() == level_of(jlpt.deep_view()),
{
    if jlpt.len() > 0 {
        let bare = strip_prefix_text(jlpt[0].as_str(), "jlpt-");
        proof {
            reveal_strlit("jlpt-");
        }
        Some(uppercase(bare.as_str()))
    } else {
        None
    }
}

/// The tags after the primary form, given the displayed level.
pub fn format_result_tags(is_common: bool, level: Option<&str>, on: bool) -> (r: String)
    ensures
        r@ == result_tags_text(
            is_common,
            match level {
                Some(l) => Some(l@),
                None => None,
            },
            on,
        ),
{
    proof {
        reveal_strlit("(common) ");
        reveal_strlit("(");
        reveal_strlit(") ");
    }
    let mut r = if is_common {
        paint("(common) ", Hue::BrightGreen, on)
    } else {
        String::new()
    };
    match level {
        Some(l) => {
            r.append("(");
            let p = paint(l, Hue::BrightBlue, on);
            r.append(p.as_str());
            r.append(") ");
        },
        None => {},
    }
    r
}

/// The text of the sense at zero-based `index` after the last heading
/// `prev`, and whether it printed a heading; `prev` becomes the new last
/// heading. A sense without glosses gives `""` and no heading.
pub fn format_sense(index: usize, s: &Sense, prev: &mut String, on: bool) -> (r: (String, bool))
    requires
        index < usize::MAX,
    ensures
        r.0@ == sense_text(index as nat, s@, old(prev)@, on),
        r.1 == sense_fresh(s@, old(prev)@),
        final(prev)@ == heading_after(s@, old(prev)@),
{
    proof {
        reveal_strlit("    ");
        reveal_strlit("\n");
        reveal_strlit(".");
        reveal_strlit(" ");
        reveal_strlit(", ");
    }
    if s.glosses.len() == 0 {
        return (String::new(), false);
    }
    let label = pos_label_text(&s.parts_of_speech);
    let fresh = label.as_str().unicode_len() > 0 && !(label == *prev);
    let mut r = String::new();
    if fresh {
        let p = paint(label.as_str(), Hue::BrightBlue, on);
        r.append(p.as_str());
        r.append("\n");
        r.append("    ");
    }
    let mut number = decimal_text(index + 1);
    number.append(".");
    let num = paint(number.as_str(), Hue::BrightBlack, on);
    r.append(num.as_str());
    r.append(" ");
    let glosses = join_text(&s.glosses, ", ");
    r.append(glosses.as_str());
    r.append(" ");
    let tags = format_sense_tags(&s.tags);
    r.append(tags.as_str());
    if fresh {
        *prev = label;
    }
    (r, fresh)
}

/// The "Other forms" block of an entry, or `None` where an alternate form
/// has neither a word nor a reading.
pub fn format_other_forms(query: &str, forms: &Vec<Form>, on: bool) -> (r: Option<String>)
    ensures
        r is Some <==> forall|i: int| 1 <= i < forms@.len() ==> labelled(#[trigger] forms@[i]@),
        r matches Some(t) ==> t@ == other_forms_text(query@, forms_view(forms@), on),
{
    if forms.len() <= 1 {
        return Some(String::new());
    }
    let ghost fv = forms_view(forms@);
    let mut labels: Vec<String> = Vec::new();
    let mut j: usize = 1;
    while j < forms.len()
        invariant
            1 <= j <= forms.len(),
            fv == forms_view(forms@),
            forall|i: int| 1 <= i < j ==> labelled(#[trigger] forms@[i]@),
            labels.deep_view() == fv.skip(1).take(j - 1).map_values(
                |f: FormModel| form_text(query@, f),
            ),
        decreases forms.len() - j,
    {
        let l = match format_form(query, &forms[j]) {
            Some(l) => l,
            None => {
                return None;
            },
        };
        let ghost before = labels.deep_view();
        labels.push(l);
        proof {
            assert(labels.deep_view() =~= before.push(l@));
            assert(fv.skip(1).take(j as int) =~= fv.skip(1).take(j - 1).push(fv[j as int]));
            assert(labels.deep_view() =~= fv.skip(1).take(j as int).map_values(
                |f: FormModel| form_text(query@, f),
            ));
        }
        j = j + 1;
    }
    proof {
        assert(fv.skip(1).take(j - 1) =~= fv.skip(1));
        reveal_strlit("    ");
        reveal_strlit("Other forms");
        reveal_strlit("\n");
        reveal_strlit(", ");
    }
    let mut r = String::from_str("    ");
    let h = paint("Other forms", Hue::BrightBlue, on);
    r.append(h.as_str());
    r.append("\n");
    r.append("    ");
    let list = join_text(&labels, ", ");
    r.append(list.as_str());
    r.append("\n");
    Some(r)
}

/// Renders one entry for `query`: its text and the number of lines it takes
/// (capped at the largest `usize`), or `None` where the entry cannot be shown.
#[verifier::rlimit(60)]
pub fn render(query: &str, e: &Entry, on: bool) -> (r: Option<(String, usize)>)
    ensures
        r is Some <==> renderable(e@),
        r matches Some((t, n)) ==> t@ == entry_text(query@, e@, on) && n == capped(
            entry_lines(e@),
        ),
{
    if e.forms.len() == 0 {
        return None;
    }
    let senses = match &e.senses {
        Some(v) => v,
        None => {
            return None;
        },
    };
    let ghost fv = forms_view(e.forms@);
    let mut text = match format_form(query, &e.forms[0]) {
        Some(t) => t,
        None => {
            proof {
                assert(!labelled(fv[0]));
            }
            return None;
        },
    };
    let others = match format_other_forms(query, &e.forms, on) {
        Some(o) => o,
        None => {
            proof {
                let i = choose|i: int| 1 <= i < e.forms@.len() && !labelled(#[trigger] e.forms@[i]@);
                assert(!labelled(fv[i]));
            }
            return None;
        },
    };
    proof {
        assert forall|i: int| 0 <= i < fv.len() implies labelled(#[trigger] fv[i]) by {
            assert(labelled(e.forms@[i]@));
        }
        reveal_strlit(" ");
        reveal_strlit("\n");
        reveal_strlit("    ");
    }
    text.append(" ");
    let level = format_level(&e.jlpt);
    let tags = match &level {
        Some(l) => format_result_tags(e.is_common, Some(l.as_str()), on),
        None => format_result_tags(e.is_common, None, on),
    };
    text.append(tags.as_str());
    text.append("\n");
    let ghost sv = senses_view(senses@);
    let mut lines: usize = 0;
    let mut prev = String::new();
    let mut i: usize = 0;
    while i < senses.len()
        invariant
            i <= senses.len(),
            sv == senses_view(senses@),
            text@ == form_text(query@, fv[0]) + " "@ + result_tags_text(
                e.is_common,
                level_of(e.jlpt.deep_view()),
                on,
            ) + "\n"@ + sense_run(sv.take(i as int), on).text,
            lines == capped(sense_run(sv.take(i as int), on).lines),
            prev@ == sense_run(sv.take(i as int), on).prev,
        decreases senses.len() - i,
    {
        let ghost run = sense_run(sv.take(i as int), on);
        proof {
            assert(sv.take(i + 1).drop_last() =~= sv.take(i as int));
            assert(sv.take(i + 1).last() == senses@[i as int]@);
        }
        let s = &senses[i];
        let (line, fresh) = format_sense(i, s, &mut prev, on);
        if s.glosses.len() > 0 {
            text.append("    ");
            text.append(line.as_str());
            text.append("\n");
            let step: usize = if fresh { 2 } else { 1 };
            proof {
                lemma_capped_add(run.lines, step as nat);
            }
            lines = lines.saturating_add(step);
        }
        i = i + 1;
    }
    proof {
        assert(sv.take(i as int) =~= sv);
        lemma_run_lines_uncoloured(sv, on);
    }
    let ghost run_lines = sense_run(sv, on).lines;
    let extra: usize = if e.forms.len() > 1 { 2 } else { 0 };
    proof {
        lemma_capped_add(run_lines, 1);
        lemma_capped_add(run_lines + 1, extra as nat);
    }
    lines = lines.saturating_add(1);
    lines = lines.saturating_add(extra);
    text.append(others.as_str());
    Some((text, lines))
}

} // verus!
