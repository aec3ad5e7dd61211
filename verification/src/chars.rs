//! Character collection: ordered unique display units (extended grapheme
//! clusters) gathered from character list texts.

use vstd::prelude::*;

use unicode_segmentation::UnicodeSegmentation;

use crate::config::GenerationSettings;
use crate::error::AppError;
use crate::text::{concat, decimal, lemma_concat_all, lemma_concat_take, line, push_char, push_str, push_usize};

verus! {

/// The extended grapheme clusters of `text`, in order, as
/// `unicode_segmentation` splits it.
pub uninterp spec fn extended_grapheme_clusters(text: Seq<char>) -> Seq<Seq<char>>;

/// `UnicodeSegmentation::graphemes(text, true)`: the extended grapheme
/// clusters of `text`, each as an owned string. The clusters are named; it is
/// stated that none is empty and that, laid end to end, they give back the
/// text. Where the boundaries fall is left to the name.
#[verifier::external_body]
fn graphemes(text: &str) -> (units: Vec<String>)
    ensures
        units@.map_values(|u: String| u@) == extended_grapheme_clusters(text@),
        concat(units@.map_values(|u: String| u@)) == text@,
        forall|i: int| 0 <= i < units@.len() ==> (#[trigger] units@[i])@.len() > 0,
{
    UnicodeSegmentation::graphemes(text, true).map(|g| g.to_string()).collect()
}

/// A character that never forms a display unit on its own: newline, carriage
/// return and tab always, a normal space unless spaces are preserved.
pub open spec fn ignorable_char(c: char, preserve_space: bool) -> bool {
    c == '\n' || c == '\r' || c == '\t' || (c == ' ' && !preserve_space)
}

/// A grapheme made only of ignorable characters is skipped.
pub open spec fn ignored_unit(unit: Seq<char>, preserve_space: bool) -> bool {
    forall|i: int| 0 <= i < unit.len() ==> ignorable_char(#[trigger] unit[i], preserve_space)
}

/// The graphemes that are not skipped, in order.
pub open spec fn kept_units(units: Seq<Seq<char>>, preserve_space: bool) -> Seq<Seq<char>>
    decreases units.len(),
{
    if units.len() == 0 {
        Seq::empty()
    } else {
        let rest = kept_units(units.drop_last(), preserve_space);
        if ignored_unit(units.last(), preserve_space) {
            rest
        } else {
            rest.push(units.last())
        }
    }
}

/// `acc` extended by each item not yet present, in the order of the items.
pub open spec fn extend_unique(acc: Seq<Seq<char>>, items: Seq<Seq<char>>) -> Seq<Seq<char>>
    decreases items.len(),
{
    if items.len() == 0 {
        acc
    } else {
        let rest = extend_unique(acc, items.drop_last());
        if rest.contains(items.last()) {
            rest
        } else {
            rest.push(items.last())
        }
    }
}

/// Collecting never repeats a unit: distinct units stay distinct.
pub proof fn extend_unique_distinct(acc: Seq<Seq<char>>, items: Seq<Seq<char>>)
    requires
        acc.no_duplicates(),
    ensures
        extend_unique(acc, items).no_duplicates(),
    decreases items.len(),
{
    if items.len() > 0 {
        extend_unique_distinct(acc, items.drop_last());
    }
}

/// A unit is among the collected ones exactly when it was collected before
/// or occurs among the new items.
pub proof fn extend_unique_membership(acc: Seq<Seq<char>>, items: Seq<Seq<char>>, unit: Seq<char>)
    ensures
        extend_unique(acc, items).contains(unit) <==> (acc.contains(unit) || items.contains(unit)),
    decreases items.len(),
{
    if items.len() > 0 {
        let init = items.drop_last();
        extend_unique_membership(acc, init, unit);
        let rest = extend_unique(acc, init);
        if init.contains(unit) {
            let j = choose|j: int| 0 <= j < init.len() && init[j] == unit;
            assert(items[j] == unit);
        }
        if items.contains(unit) && !init.contains(unit) {
            let j = choose|j: int| 0 <= j < items.len() && items[j] == unit;
            if j < items.len() - 1 {
                assert(init[j] == unit);
            }
            assert(unit == items.last());
        }
        if !rest.contains(items.last()) {
            if rest.push(items.last()).contains(unit) && unit != items.last() {
                let j = choose|j: int| 0 <= j < rest.len() + 1 && rest.push(items.last())[j] == unit;
                assert(rest[j] == unit);
            }
            if rest.contains(unit) {
                let j = choose|j: int| 0 <= j < rest.len() && rest[j] == unit;
                assert(rest.push(items.last())[j] == unit);
            }
            assert(rest.push(items.last())[rest.len() as int] == items.last());
        }
    }
}

/// What was collected first stays first, in its order: the earlier units are
/// a prefix of the result.
pub proof fn extend_unique_keeps_prefix(acc: Seq<Seq<char>>, items: Seq<Seq<char>>)
    ensures
        acc.len() <= extend_unique(acc, items).len(),
        extend_unique(acc, items).take(acc.len() as int) == acc,
    decreases items.len(),
{
    if items.len() > 0 {
        extend_unique_keeps_prefix(acc, items.drop_last());
        let rest = extend_unique(acc, items.drop_last());
        assert(rest.push(items.last()).take(acc.len() as int) == rest.take(acc.len() as int));
    }
}

/// The first occurrence decides the order: of two collected units, the
/// earlier one occurs in the items before every occurrence of the later one.
pub proof fn extend_unique_first_occurrence_order(items: Seq<Seq<char>>, i: int, j: int, k: int)
    requires
        0 <= i < j < extend_unique(Seq::empty(), items).len(),
        0 <= k < items.len(),
        items[k] == extend_unique(Seq::empty(), items)[j],
    ensures
        exists|p: int| 0 <= p < k && items[p] == extend_unique(Seq::empty(), items)[i],
    decreases items.len(),
{
    let result = extend_unique(Seq::empty(), items);
    let init = items.drop_last();
    let rest = extend_unique(Seq::empty(), init);
    let last = items.last();
    assert(items.len() > 0);
    if k < items.len() - 1 && j < rest.len() {
        assert(result[j] == rest[j] && result[i] == rest[i]);
        assert(init[k] == items[k]);
        extend_unique_first_occurrence_order(init, i, j, k);
        let p = choose|p: int| 0 <= p < k && init[p] == rest[i];
        assert(items[p] == init[p]);
    } else {
        // Either the later unit is the last item, or it is first seen there.
        assert(result[i] == rest[i]);
        extend_unique_membership(Seq::empty(), init, rest[i]);
        assert(rest.contains(rest[i]));
        let p = choose|p: int| 0 <= p < init.len() && init[p] == rest[i];
        assert(items[p] == init[p]);
        if k < items.len() - 1 {
            // j == rest.len(): the later unit is new with the last item, so
            // it does not occur among the earlier items.
            assert(!rest.contains(last));
            assert(result[j] == last);
            extend_unique_membership(Seq::empty(), init, last);
            assert(init[k] == last);
            assert(false);
        }
        assert(p < k);
    }
}

/// Collecting one list of units and then another is collecting the two lists
/// laid end to end: character files are read in order as if they were one.
pub proof fn extend_unique_in_sequence(
    acc: Seq<Seq<char>>,
    first: Seq<Seq<char>>,
    second: Seq<Seq<char>>,
)
    ensures
        extend_unique(extend_unique(acc, first), second) == extend_unique(acc, first + second),
    decreases second.len(),
{
    if second.len() == 0 {
        assert(first + second == first);
    } else {
        extend_unique_in_sequence(acc, first, second.drop_last());
        assert((first + second).drop_last() == first + second.drop_last());
        assert((first + second).last() == second.last());
    }
}

/// A grapheme is kept exactly when it occurs in the text and is not made only
/// of ignorable characters.
pub proof fn kept_units_membership(units: Seq<Seq<char>>, preserve_space: bool, unit: Seq<char>)
    ensures
        kept_units(units, preserve_space).contains(unit) <==> (units.contains(unit)
            && !ignored_unit(unit, preserve_space)),
    decreases units.len(),
{
    if units.len() > 0 {
        let init = units.drop_last();
        kept_units_membership(init, preserve_space, unit);
        let rest = kept_units(init, preserve_space);
        if init.contains(unit) {
            let j = choose|j: int| 0 <= j < init.len() && init[j] == unit;
            assert(units[j] == unit);
        }
        if units.contains(unit) && !init.contains(unit) {
            let j = choose|j: int| 0 <= j < units.len() && units[j] == unit;
            if j < units.len() - 1 {
                assert(init[j] == unit);
            }
            assert(unit == units.last());
        }
        if !ignored_unit(units.last(), preserve_space) {
            if rest.push(units.last()).contains(unit) && unit != units.last() {
                let j = choose|j: int| 0 <= j < rest.len() + 1 && rest.push(units.last())[j] == unit;
                assert(rest[j] == unit);
            }
            if rest.contains(unit) {
                let j = choose|j: int| 0 <= j < rest.len() && rest[j] == unit;
                assert(rest.push(units.last())[j] == unit);
            }
            assert(rest.push(units.last())[rest.len() as int] == units.last());
        }
    }
}

/// Newline, carriage return and tab never form a display unit, whatever
/// `preserve_space` is; `preserve_space` decides only for the normal space
/// U+0020. With spaces preserved a grapheme is skipped exactly when it holds
/// nothing but newlines, carriage returns and tabs; without, exactly when it
/// holds nothing but those and normal spaces.
pub proof fn whitespace_rule(unit: Seq<char>)
    ensures
        ignored_unit(unit, true) <==> (forall|i: int|
            0 <= i < unit.len() ==> #[trigger] unit[i] == '\n' || unit[i] == '\r' || unit[i]
                == '\t'),
        ignored_unit(unit, false) <==> (forall|i: int|
            0 <= i < unit.len() ==> #[trigger] unit[i] == '\n' || unit[i] == '\r' || unit[i]
                == '\t' || unit[i] == ' '),
{
}

/// Every collected display unit holds a character that is not a newline, a
/// carriage return or a tab, and, unless spaces are preserved, not a normal
/// space either.
pub proof fn collected_units_are_visible(units: Seq<Seq<char>>, preserve_space: bool, unit: Seq<
    char,
>)
    requires
        kept_units(units, preserve_space).contains(unit),
    ensures
        exists|i: int|
            0 <= i < unit.len() && #[trigger] unit[i] != '\n' && unit[i] != '\r' && unit[i]
                != '\t' && (preserve_space || unit[i] != ' '),
{
    kept_units_membership(units, preserve_space, unit);
    whitespace_rule(unit);
}

/// The display units that a text adds to those collected so far.
pub open spec fn collected_after(
    acc: Seq<Seq<char>>,
    text: Seq<char>,
    preserve_space: bool,
) -> Seq<Seq<char>> {
    extend_unique(acc, kept_units(extended_grapheme_clusters(text), preserve_space))
}

/// How a display unit appears in the summaries: a lone space as `<space>`.
pub open spec fn display_unit_text(unit: Seq<char>) -> Seq<char> {
    if unit == seq![' '] {
        "<space>"@
    } else {
        unit
    }
}

/// The display unit as the summaries show it.
pub fn format_display_unit(unit: &str) -> (text: String)
    ensures
        text@ == display_unit_text(unit@),
{
    if unit.unicode_len() == 1 && unit.get_char(0) == ' ' {
        assert(unit@ == seq![' ']);
        String::from_str("<space>")
    } else {
        String::from_str(unit)
    }
}

/// A display unit made of exactly one Unicode scalar value.
pub open spec fn is_single_scalar(unit: Seq<char>) -> bool {
    unit.len() == 1
}

/// The only character of a display unit made of exactly one Unicode scalar
/// value; `None` for an empty unit or a multi-scalar cluster.
pub fn single_scalar(unit: &str) -> (character: Option<char>)
    ensures
        is_single_scalar(unit@) ==> character == Some(unit@[0]),
        !is_single_scalar(unit@) ==> character is None,
{
    if unit.unicode_len() == 1 {
        Some(unit.get_char(0))
    } else {
        None
    }
}

/// Whether a grapheme is skipped: it holds only newline, carriage return, tab,
/// and (unless spaces are preserved) normal spaces.
pub fn should_ignore(grapheme: &str, preserve_space: bool) -> (ignored: bool)
    ensures
        ignored == ignored_unit(grapheme@, preserve_space),
{
    let n = grapheme.unicode_len();
    let mut i: usize = 0;
    while i < n
        invariant
            n == grapheme@.len(),
            i <= n,
            forall|k: int| 0 <= k < i ==> ignorable_char(#[trigger] grapheme@[k], preserve_space),
        decreases n - i,
    {
        let ch = grapheme.get_char(i);
        let ignorable = ch == '\n' || ch == '\r' || ch == '\t' || (ch == ' ' && !preserve_space);
        if !ignorable {
            return false;
        }
        i += 1;
    }
    true
}

/// The ordered unique display units of a character list. Its display units
/// are never empty and never repeat.
#[derive(Debug, PartialEq, Eq)]
pub struct CharacterSet {
    display_units: Vec<String>,
}

/// Views of a list of strings.
pub open spec fn string_views(strings: Seq<String>) -> Seq<Seq<char>> {
    strings.map_values(|s: String| s@)
}

impl View for CharacterSet {
    type V = Seq<Seq<char>>;

    closed spec fn view(&self) -> Seq<Seq<char>> {
        string_views(self.display_units@)
    }
}

/// The summary line of one display unit.
pub open spec fn unit_summary_line(unit: Seq<char>) -> Seq<char> {
    line("  - "@ + display_unit_text(unit))
}

/// The character summary: the count, then one line per display unit.
pub open spec fn character_summary(units: Seq<Seq<char>>) -> Seq<char> {
    line("characters = "@ + decimal(units.len())) + concat(
        units.map_values(|u: Seq<char>| unit_summary_line(u)),
    )
}

impl CharacterSet {
    #[verifier::type_invariant]
    closed spec fn inv(self) -> bool {
        &&& self.display_units@.len() > 0
        &&& string_views(self.display_units@).no_duplicates()
    }

    /// The display units, in order of first occurrence.
    pub fn display_units(&self) -> (units: &[String])
        ensures
            string_views(units@) == self@,
            units@.len() > 0,
            self@.no_duplicates(),
    {
        proof {
            use_type_invariant(self);
        }
        self.display_units.as_slice()
    }

    /// Number of display units.
    pub fn len(&self) -> (n: usize)
        ensures
            n == self@.len(),
            n > 0,
    {
        proof {
            use_type_invariant(self);
        }
        self.display_units.len()
    }

    /// Whether there are no display units (never, for a collected set).
    pub fn is_empty(&self) -> (empty: bool)
        ensures
            empty == (self@.len() == 0),
            !empty,
    {
        proof {
            use_type_invariant(self);
        }
        self.display_units.len() == 0
    }

    /// The count of display units, then each of them on its own line.
    pub fn format_summary(&self) -> (text: String)
        ensures
            text@ == character_summary(self@),
    {
        let mut text = String::new();
        push_str(&mut text, "characters = ");
        push_usize(&mut text, self.display_units.len());
        push_char(&mut text, '\n');
        let ghost head = text@;
        let ghost lines = self@.map_values(|u: Seq<char>| unit_summary_line(u));
        let mut i: usize = 0;
        while i < self.display_units.len()
            invariant
                i <= self.display_units@.len(),
                self@ == string_views(self.display_units@),
                lines == self@.map_values(|u: Seq<char>| unit_summary_line(u)),
                text@ == head + concat(lines.take(i as int)),
            decreases self.display_units.len() - i,
        {
            let ghost before = text@;
            push_str(&mut text, "  - ");
            let shown = format_display_unit(self.display_units[i].as_str());
            push_str(&mut text, shown.as_str());
            push_char(&mut text, '\n');
            proof {
                assert(text@ == before + lines[i as int]);
                lemma_concat_take(lines, i as int);
            }
            i += 1;
        }
        proof {
            lemma_concat_all(lines);
        }
        text
    }
}

/// Collects unique display units from character list texts, one text at a
/// time, in order.
pub struct CharacterCollector {
    preserve_space: bool,
    display_units: Vec<String>,
}

impl View for CharacterCollector {
    type V = Seq<Seq<char>>;

    closed spec fn view(&self) -> Seq<Seq<char>> {
        string_views(self.display_units@)
    }
}

impl CharacterCollector {
    #[verifier::type_invariant]
    closed spec fn inv(self) -> bool {
        string_views(self.display_units@).no_duplicates()
    }

    /// Whether normal spaces are kept as display units.
    pub closed spec fn preserves_space(self) -> bool {
        self.preserve_space
    }

    /// A collector with nothing collected yet.
    pub fn new(preserve_space: bool) -> (collector: Self)
        ensures
            collector@ == Seq::<Seq<char>>::empty(),
            collector.preserves_space() == preserve_space,
    {
        let collector = CharacterCollector { preserve_space, display_units: Vec::new() };
        assert(collector@ =~= Seq::<Seq<char>>::empty());
        collector
    }

    /// Adds the display units of one text: each extended grapheme cluster that
    /// is not skipped and not yet collected is appended, in order.
    pub fn collect_text(&mut self, content: &str)
        ensures
            final(self).preserves_space() == old(self).preserves_space(),
            final(self)@ == collected_after(old(self)@, content@, old(self).preserves_space()),
    {
        let units = graphemes(content);
        self.collect_units(&units);
    }

    /// Adds graphemes in order: each one that is not skipped and not yet
    /// collected is appended.
    pub fn collect_units(&mut self, units: &Vec<String>)
        ensures
            final(self).preserves_space() == old(self).preserves_space(),
            final(self)@ == extend_unique(
                old(self)@,
                kept_units(string_views(units@), old(self).preserves_space()),
            ),
    {
        proof {
            use_type_invariant(&*self);
        }
        let ghost clusters = string_views(units@);
        let ghost start = self@;
        let preserve = self.preserve_space;
        let mut i: usize = 0;
        while i < units.len()
            invariant
                i <= units@.len(),
                preserve == self.preserve_space,
                self.preserve_space == old(self).preserve_space,
                start == old(self)@,
                string_views(units@) == clusters,
                self@ == extend_unique(start, kept_units(clusters.take(i as int), preserve)),
            decreases units.len() - i,
        {
            let unit = &units[i];
            let ghost prev = self@;
            proof {
                assert(clusters.take(i + 1).drop_last() == clusters.take(i as int));
                assert(clusters.take(i + 1).last() == unit@);
            }
            if !should_ignore(unit.as_str(), preserve) {
                let mut seen = false;
                let mut k: usize = 0;
                while k < self.display_units.len()
                    invariant
                        k <= self.display_units@.len(),
                        self@ == prev,
                        string_views(self.display_units@) == prev,
                        seen == (exists|j: int| 0 <= j < k && self@[j] == unit@),
                    decreases self.display_units.len() - k,
                {
                    if self.display_units[k] == *unit {
                        seen = true;
                    }
                    proof {
                        assert(self@[k as int] == self.display_units@[k as int]@);
                    }
                    k += 1;
                }
                proof {
                    if seen {
                        let j = choose|j: int| 0 <= j < k && self@[j] == unit@;
                        assert(self@.contains(unit@));
                    }
                    if self@.contains(unit@) {
                        let j = choose|j: int| 0 <= j < self@.len() && self@[j] == unit@;
                        assert(seen);
                    }
                }
                if !seen {
                    proof {
                        use_type_invariant(&*self);
                        assert(prev.push(unit@).no_duplicates());
                    }
                    let mut collected: Vec<String> = Vec::new();
                    std::mem::swap(&mut collected, &mut self.display_units);
                    collected.push(unit.clone());
                    assert(string_views(collected@) == prev.push(unit@));
                    self.display_units = collected;
                }
            }
            proof {
                let kept_before = kept_units(clusters.take(i as int), preserve);
                let kept_after = kept_units(clusters.take(i + 1), preserve);
                if ignored_unit(unit@, preserve) {
                    assert(kept_after == kept_before);
                } else {
                    assert(kept_after == kept_before.push(unit@));
                    assert(kept_after.drop_last() == kept_before);
                }
            }
            i += 1;
        }
        assert(clusters.take(i as int) == clusters);
    }

    /// The collected character set, or `NoCharactersFound` when nothing was
    /// collected.
    pub fn finish(self) -> (result: Result<CharacterSet, AppError>)
        ensures
            self@.len() == 0 ==> result == Err::<CharacterSet, AppError>(AppError::NoCharactersFound),
            self@.len() > 0 ==> (result matches Ok(set) && set@ == self@),
    {
        if self.display_units.len() == 0 {
            return Err(AppError::NoCharactersFound);
        }
        proof {
            use_type_invariant(&self);
            assert(string_views(self.display_units@).no_duplicates());
        }
        Ok(CharacterSet { display_units: self.display_units })
    }
}

/// The display units of character list texts read in order, each adding its
/// new units after those of the texts before it.
pub open spec fn collected_from_texts(texts: Seq<Seq<char>>, preserve_space: bool) -> Seq<
    Seq<char>,
>
    decreases texts.len(),
{
    if texts.len() == 0 {
        Seq::empty()
    } else {
        collected_after(
            collected_from_texts(texts.drop_last(), preserve_space),
            texts.last(),
            preserve_space,
        )
    }
}

/// Collects the unique display units of the contents of the character files,
/// in file order; `NoCharactersFound` when none remain after whitespace
/// filtering.
pub fn collect_from_files(contents: &Vec<String>, preserve_space: bool) -> (result: Result<
    CharacterSet,
    AppError,
>)
    ensures
        collected_from_texts(string_views(contents@), preserve_space).len() == 0 ==> result
            == Err::<CharacterSet, AppError>(AppError::NoCharactersFound),
        collected_from_texts(string_views(contents@), preserve_space).len() > 0 ==> (result matches Ok(
            set,
        ) && set@ == collected_from_texts(string_views(contents@), preserve_space)),
{
    let ghost texts = string_views(contents@);
    let mut collector = CharacterCollector::new(preserve_space);
    let mut i: usize = 0;
    while i < contents.len()
        invariant
            i <= contents@.len(),
            texts == string_views(contents@),
            collector.preserves_space() == preserve_space,
            collector@ == collected_from_texts(texts.take(i as int), preserve_space),
        decreases contents.len() - i,
    {
        collector.collect_text(contents[i].as_str());
        proof {
            assert(texts.take(i + 1).drop_last() == texts.take(i as int));
            assert(texts.take(i + 1).last() == contents@[i as int]@);
        }
        i += 1;
    }
    assert(texts.take(i as int) == texts);
    collector.finish()
}

impl CharacterSet {
    /// The character set of the configured character files, whose contents
    /// are given in the configured order, with the configured space policy.
    pub fn from_settings(settings: &GenerationSettings, contents: &Vec<String>) -> (result: Result<
        CharacterSet,
        AppError,
    >)
        ensures
            collected_from_texts(string_views(contents@), settings.preserve_space).len() == 0
                ==> result == Err::<CharacterSet, AppError>(AppError::NoCharactersFound),
            collected_from_texts(string_views(contents@), settings.preserve_space).len() > 0
                ==> (result matches Ok(set) && set@ == collected_from_texts(
                string_views(contents@),
                settings.preserve_space,
            )),
    {
        collect_from_files(contents, settings.preserve_space)
    }
}

} // verus!
