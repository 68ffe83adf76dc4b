//! The selectable options: display modes, scale factors, the ordered sets
//! that offer them, and the search that finds an option's position.

use crate::decimal::{
    all_digits, decimal_text, decimal_value, digit_char, digit_of, digit_str, format_decimal,
    fraction_digits, hundredths_of, is_digit, is_fraction, is_fraction_split,
    lemma_decimal_text_value, lemma_point_is_first_non_digit, point_of, pow10,
};
use vstd::arithmetic::div_mod::lemma_fundamental_div_mod_converse;
use vstd::prelude::*;

verus! {

/// Whether `s` writes a positive integer without a leading zero.
pub open spec fn is_numeral(s: Seq<char>) -> bool {
    &&& s.len() > 0
    &&& s[0] != '0'
    &&& all_digits(s)
}

/// Whether `s` is a width, the letter `x` at position `k`, and a height.
pub open spec fn is_mode_split(s: Seq<char>, k: int) -> bool {
    &&& 0 < k < s.len() - 1
    &&& s[k] == 'x'
    &&& is_numeral(s.subrange(0, k))
    &&& is_numeral(s.subrange(k + 1, s.len() as int))
}

/// Whether `s` has the form `{width}x{height}`, both positive integers
/// without leading zeros.
pub open spec fn is_mode_text(s: Seq<char>) -> bool {
    exists|k: int| is_mode_split(s, k)
}

/// A resolution, held in its text form `{width}x{height}`.
///
/// Every value holds a well-formed text; two modes are the same mode exactly
/// when their texts are equal.
#[derive(Debug)]
pub struct DisplayMode {
    text: String,
}

impl View for DisplayMode {
    type V = Seq<char>;

    closed spec fn view(&self) -> Seq<char> {
        self.text@
    }
}

/// Whether `i` lies in `s` at or after `from` with only digits in between.
spec fn digits_until(s: Seq<char>, from: int, i: int) -> bool {
    &&& from <= i <= s.len()
    &&& forall|j: int| from <= j < i ==> is_digit(#[trigger] s[j])
}

impl DisplayMode {
    #[verifier::type_invariant]
    spec fn well_formed(&self) -> bool {
        is_mode_text(self.text@)
    }

    /// Reads a mode from its text. Succeeds exactly on texts of the form
    /// `{width}x{height}`, and keeps the text as it is.
    pub fn new(text: &str) -> (mode: Option<DisplayMode>)
        ensures
            mode is Some <==> is_mode_text(text@),
            mode matches Some(m) ==> m@ == text@,
    {
        let ghost s = text@;
        let n = text.unicode_len();
        let mut k: usize = 0;
        while k < n && digit_of(text.get_char(k)).is_some()
            invariant
                n == s.len(),
                s == text@,
                digits_until(s, 0, k as int),
            decreases n - k,
        {
            k += 1;
        }
        if k == 0 || k >= n - 1 || text.get_char(0) == '0' || text.get_char(k) != 'x' {
            proof {
                assert forall|m: int| !is_mode_split(s, m) by {
                    if is_mode_split(s, m) {
                        lemma_split_is_first_non_digit(s, m, k as int);
                        assert(s.subrange(0, m)[0] == s[0]);
                    }
                }
            }
            return None;
        }
        let mut j: usize = k + 1;
        while j < n && digit_of(text.get_char(j)).is_some()
            invariant
                n == s.len(),
                s == text@,
                k + 1 <= j <= n,
                digits_until(s, k + 1, j as int),
            decreases n - j,
        {
            j += 1;
        }
        if j < n || text.get_char(k + 1) == '0' {
            proof {
                assert forall|m: int| !is_mode_split(s, m) by {
                    if is_mode_split(s, m) {
                        lemma_split_is_first_non_digit(s, m, k as int);
                        let tail = s.subrange(m + 1, s.len() as int);
                        assert(tail[0] == s[m + 1]);
                        if j < n {
                            assert(tail[j - (m + 1)] == s[j as int]);
                        }
                    }
                }
            }
            return None;
        }
        proof {
            let head = s.subrange(0, k as int);
            let tail = s.subrange(k + 1, s.len() as int);
            assert forall|i: int| 0 <= i < head.len() implies is_digit(#[trigger] head[i]) by {
                assert(head[i] == s[i]);
            }
            assert forall|i: int| 0 <= i < tail.len() implies is_digit(#[trigger] tail[i]) by {
                assert(tail[i] == s[k + 1 + i]);
            }
            assert(head[0] == s[0]);
            assert(tail[0] == s[k + 1]);
            assert(is_mode_split(s, k as int));
        }
        Some(DisplayMode { text: String::from_str(text) })
    }

    /// The text of the mode, which has the form `{width}x{height}`.
    pub fn as_str(&self) -> (text: &str)
        ensures
            text@ == self@,
            is_mode_text(text@),
    {
        proof {
            use_type_invariant(self);
        }
        self.text.as_str()
    }
}

/// In a well-formed mode text the `x` stands where the leading digits end.
proof fn lemma_split_is_first_non_digit(s: Seq<char>, m: int, k: int)
    requires
        is_mode_split(s, m),
        digits_until(s, 0, k),
        k < s.len() ==> !is_digit(s[k]),
    ensures
        m == k,
{
    let head = s.subrange(0, m);
    if k < m {
        assert(head[k] == s[k]);
    }
    if m < k {
        assert(is_digit(s[m]));
    }
}

/// The percentage of the default scale factor, which means no scaling.
pub const DEFAULT_SCALE_PERCENT: u32 = 100;

/// A scale factor, held as a whole percentage: 125 stands for 1.25.
#[derive(Clone, Copy, Debug, PartialEq, Eq, Structural)]
pub struct ScaleOption {
    pub percent: u32,
}

/// The percentage that the scale selection `index` stands for: 100, 125 and
/// 150 for the first three positions, and 100 for every other index.
pub open spec fn scale_percent_at(index: u32) -> u32 {
    if index == 1 {
        125
    } else if index == 2 {
        150
    } else {
        100
    }
}

/// The label of a percentage: its numeral and a percent sign.
pub open spec fn scale_label(percent: u32) -> Seq<char> {
    decimal_text(percent as nat).push('%')
}

/// The multiplier of a percentage as a decimal fraction with no trailing
/// zero: `1` for 100, `1.5` for 150, `1.25` for 125, `1.05` for 105.
pub open spec fn multiplier_text(percent: u32) -> Seq<char> {
    let whole = decimal_text(percent as nat / 100);
    let tenths = (percent as nat % 100) / 10;
    let hundredths = percent as nat % 10;
    if percent % 100 == 0 {
        whole
    } else if hundredths == 0 {
        whole.push('.').push(digit_char(tenths))
    } else {
        whole.push('.').push(digit_char(tenths)).push(digit_char(hundredths))
    }
}

impl ScaleOption {
    /// The scale factor behind a position of the scale selection.
    pub fn from_index(index: u32) -> (scale: ScaleOption)
        ensures
            scale.percent == scale_percent_at(index),
    {
        if index == 1 {
            ScaleOption { percent: 125 }
        } else if index == 2 {
            ScaleOption { percent: 150 }
        } else {
            ScaleOption { percent: DEFAULT_SCALE_PERCENT }
        }
    }

    /// The text under which the scale is offered, such as `125%`.
    pub fn label(&self) -> (text: String)
        ensures
            text@ == scale_label(self.percent),
    {
        proof {
            reveal_strlit("%");
        }
        let mut text = format_decimal(self.percent as u64);
        text.append("%");
        text
    }

    /// The multiplier in the form that the scale command takes, such as `1.25`.
    pub fn multiplier(&self) -> (text: String)
        ensures
            text@ == multiplier_text(self.percent),
    {
        proof {
            reveal_strlit(".");
        }
        let whole: u32 = self.percent / 100;
        let tenths: u32 = (self.percent % 100) / 10;
        let hundredths: u32 = self.percent % 10;
        let mut text = format_decimal(whole as u64);
        if self.percent % 100 != 0 {
            text.append(".");
            text.append(digit_str(tenths as u64));
            if hundredths != 0 {
                text.append(digit_str(hundredths as u64));
            }
        }
        text
    }
}

/// The texts of a sequence of strings.
pub open spec fn texts(items: Seq<String>) -> Seq<Seq<char>> {
    items.map_values(|s: String| s@)
}

/// An ordered set of options, each held as its text.
///
/// The position of an option is the identifier by which it is selected and
/// applied, so the order never changes once the set is made. Position 0 is
/// the default option. A set holds at most `u32::MAX` options, so that every
/// position is a `u32`.
#[derive(Debug)]
pub struct SupportedOptionSet {
    items: Vec<String>,
}

impl View for SupportedOptionSet {
    type V = Seq<Seq<char>>;

    closed spec fn view(&self) -> Seq<Seq<char>> {
        texts(self.items@)
    }
}

/// Whether `target` stands at position `i` of `items` and nowhere before it.
pub open spec fn is_first_match(items: Seq<Seq<char>>, target: Seq<char>, i: int) -> bool {
    &&& 0 <= i < items.len()
    &&& items[i] == target
    &&& forall|j: int| 0 <= j < i ==> items[j] != target
}

/// The first position at which `target` stands in `items`, if it stands
/// anywhere.
pub open spec fn position_of(items: Seq<Seq<char>>, target: Seq<char>) -> Option<int> {
    if exists|i: int| is_first_match(items, target, i) {
        Some(choose|i: int| is_first_match(items, target, i))
    } else {
        None
    }
}

impl SupportedOptionSet {
    #[verifier::type_invariant]
    spec fn well_formed(&self) -> bool {
        self.items@.len() <= u32::MAX
    }

    /// The set without options, in which nothing is found.
    pub fn empty() -> (set: SupportedOptionSet)
        ensures
            set@ == Seq::<Seq<char>>::empty(),
    {
        let set = SupportedOptionSet { items: Vec::new() };
        assert(set@ =~= Seq::<Seq<char>>::empty());
        set
    }

    /// Makes a set of the given options, in their order. Fails exactly when
    /// there are more than `u32::MAX` of them.
    pub fn new(items: Vec<String>) -> (set: Option<SupportedOptionSet>)
        ensures
            set is Some <==> items@.len() <= u32::MAX,
            set matches Some(s) ==> s@ == texts(items@),
    {
        if items.len() > u32::MAX as usize {
            None
        } else {
            Some(SupportedOptionSet { items })
        }
    }

    /// The number of options.
    pub fn len(&self) -> (n: u32)
        ensures
            n == self@.len(),
    {
        proof {
            use_type_invariant(self);
        }
        self.items.len() as u32
    }

    /// The option at position `index`, if the set has one there.
    pub fn get(&self, index: u32) -> (option: Option<&String>)
        ensures
            option is Some <==> index < self@.len(),
            option matches Some(text) ==> text@ == self@[index as int],
    {
        if (index as usize) < self.items.len() {
            Some(&self.items[index as usize])
        } else {
            None
        }
    }
}

/// The texts of the resolutions on offer, the native one first.
pub open spec fn offered_resolutions() -> Seq<Seq<char>> {
    seq!["1920x1200"@, "1936x1203"@, "1952x1217"@, "2104x1236"@]
}

/// The texts of the scales on offer, no scaling first.
pub open spec fn offered_scales() -> Seq<Seq<char>> {
    seq!["100%"@, "125%"@, "150%"@]
}

/// The resolutions on offer, the native one first.
pub fn populate_resolutions() -> (set: SupportedOptionSet)
    ensures
        set@ == offered_resolutions(),
{
    let mut items: Vec<String> = Vec::new();
    items.push(String::from_str("1920x1200"));
    items.push(String::from_str("1936x1203"));
    items.push(String::from_str("1952x1217"));
    items.push(String::from_str("2104x1236"));
    let set = SupportedOptionSet { items };
    assert(set@ =~= offered_resolutions());
    set
}

/// The scale factors on offer, no scaling first.
pub fn populate_scales() -> (set: SupportedOptionSet)
    ensures
        set@ == offered_scales(),
{
    let mut items: Vec<String> = Vec::new();
    items.push(String::from_str("100%"));
    items.push(String::from_str("125%"));
    items.push(String::from_str("150%"));
    let set = SupportedOptionSet { items };
    assert(set@ =~= offered_scales());
    set
}

/// Finds the first position at which `target` stands in `set`, comparing the
/// texts character by character.
pub fn index_of(set: &SupportedOptionSet, target: &str) -> (found: Option<u32>)
    ensures
        found is Some <==> position_of(set@, target@) is Some,
        found matches Some(i) ==> position_of(set@, target@) == Some(i as int),
{
    proof {
        use_type_invariant(set);
    }
    let wanted = String::from_str(target);
    let n = set.items.len();
    let mut i: usize = 0;
    while i < n
        invariant
            n == set.items@.len(),
            n <= u32::MAX,
            i <= n,
            wanted@ == target@,
            forall|j: int| 0 <= j < i ==> set@[j] != target@,
        decreases n - i,
    {
        if set.items[i] == wanted {
            proof {
                assert(is_first_match(set@, target@, i as int));
                lemma_first_match_unique(set@, target@, i as int);
            }
            return Some(i as u32);
        }
        i += 1;
    }
    proof {
        assert forall|k: int| !is_first_match(set@, target@, k) by {}
    }
    None
}

/// At most one position is the first match of a target.
pub proof fn lemma_first_match_unique(items: Seq<Seq<char>>, target: Seq<char>, i: int)
    requires
        is_first_match(items, target, i),
    ensures
        position_of(items, target) == Some(i),
{
    let k = choose|k: int| is_first_match(items, target, k);
    assert(is_first_match(items, target, k));
    if k < i {
        assert(items[k] != target);
    }
    if i < k {
        assert(items[i] != target);
    }
}

/// Searching a set for the option that stands at position `i` finds `i`,
/// provided the same option does not already stand at an earlier position.
pub proof fn lemma_index_of_member(items: Seq<Seq<char>>, i: int)
    requires
        0 <= i < items.len(),
        forall|j: int| 0 <= j < i ==> items[j] != items[i],
    ensures
        position_of(items, items[i]) == Some(i),
{
    assert(is_first_match(items, items[i], i));
    lemma_first_match_unique(items, items[i], i);
}

/// Searching a set for a value that it does not hold finds nothing.
pub proof fn lemma_index_of_absent(items: Seq<Seq<char>>, target: Seq<char>)
    requires
        forall|j: int| 0 <= j < items.len() ==> items[j] != target,
    ensures
        position_of(items, target) is None,
{
    assert forall|k: int| !is_first_match(items, target, k) by {}
}

/// Whatever is found stands in the set, at the position found.
pub proof fn lemma_index_of_found(items: Seq<Seq<char>>, target: Seq<char>)
    requires
        position_of(items, target) is Some,
    ensures
        is_first_match(items, target, position_of(items, target)->0),
{
}

/// A target that stands at position `j` has a first position, at or before
/// `j`.
pub proof fn lemma_member_is_found(items: Seq<Seq<char>>, target: Seq<char>, j: int)
    requires
        0 <= j < items.len(),
        items[j] == target,
    ensures
        position_of(items, target) matches Some(i) && i <= j,
    decreases j,
{
    if exists|k: int| 0 <= k < j && items[k] == target {
        let k = choose|k: int| 0 <= k < j && items[k] == target;
        lemma_member_is_found(items, target, k);
    } else {
        assert(is_first_match(items, target, j));
        lemma_first_match_unique(items, target, j);
    }
}

/// Whether every text of `items` is a well-formed mode.
pub open spec fn all_modes(items: Seq<Seq<char>>) -> bool {
    forall|i: int| 0 <= i < items.len() ==> is_mode_text(#[trigger] items[i])
}

/// Every resolution on offer is a well-formed mode.
pub proof fn lemma_offered_resolutions_are_modes()
    ensures
        all_modes(offered_resolutions()),
{
    assert forall|i: int| 0 <= i < offered_resolutions().len() implies is_mode_text(
        #[trigger] offered_resolutions()[i],
    ) by {
        lemma_offered_resolutions_are_found(i);
    }
}

/// Every resolution on offer is a well-formed mode and is found at its own
/// position.
pub proof fn lemma_offered_resolutions_are_found(i: int)
    requires
        0 <= i < offered_resolutions().len(),
    ensures
        is_mode_text(offered_resolutions()[i]),
        position_of(offered_resolutions(), offered_resolutions()[i]) == Some(i),
{
    reveal_strlit("1920x1200");
    reveal_strlit("1936x1203");
    reveal_strlit("1952x1217");
    reveal_strlit("2104x1236");
    let items = offered_resolutions();
    assert(items[0][2] != items[1][2]);
    assert(items[0][2] != items[2][2]);
    assert(items[0][0] != items[3][0]);
    assert(items[1][2] != items[2][2]);
    assert(items[1][0] != items[3][0]);
    assert(items[2][0] != items[3][0]);
    lemma_index_of_member(items, i);
    let text = items[i];
    assert(text.len() == 9 && text[4] == 'x');
    let width = text.subrange(0, 4);
    let height = text.subrange(5, 9);
    assert forall|j: int| 0 <= j < width.len() implies is_digit(#[trigger] width[j]) by {
        assert(width[j] == text[j]);
    }
    assert forall|j: int| 0 <= j < height.len() implies is_digit(#[trigger] height[j]) by {
        assert(height[j] == text[5 + j]);
    }
    assert(width[0] == text[0]);
    assert(height[0] == text[5]);
    assert(is_mode_split(text, 4));
}

/// Every scale on offer is the label of the scale behind its position, and
/// is found at its own position.
pub proof fn lemma_offered_scales_are_found(index: u32)
    requires
        index < offered_scales().len(),
    ensures
        offered_scales()[index as int] == scale_label(scale_percent_at(index)),
        position_of(offered_scales(), scale_label(scale_percent_at(index))) == Some(index as int),
{
    reveal_strlit("100%");
    reveal_strlit("125%");
    reveal_strlit("150%");
    reveal_with_fuel(decimal_text, 3);
    let items = offered_scales();
    assert(items[0][1] != items[1][1]);
    assert(items[0][1] != items[2][1]);
    assert(items[1][1] != items[2][1]);
    assert(items[index as int] =~= scale_label(scale_percent_at(index)));
    lemma_index_of_member(items, index as int);
}

/// The multiplier text of a percentage is a decimal fraction that reads back
/// as that percentage: what the scale command is given is what a report of
/// the same scale yields.
pub proof fn lemma_multiplier_reads_back(percent: u32)
    ensures
        is_fraction(multiplier_text(percent)),
        hundredths_of(multiplier_text(percent)) == percent,
{
    let whole = percent as nat / 100;
    let tenths = (percent as nat % 100) / 10;
    let hundredths = percent as nat % 10;
    let numeral = decimal_text(whole);
    let text = multiplier_text(percent);
    let point = numeral.len() as int;
    lemma_decimal_text_value(whole);
    assert(text.subrange(0, point) =~= numeral);
    assert forall|i: int| 0 <= i < point implies is_digit(#[trigger] text[i]) by {
        assert(text[i] == numeral[i]);
    }
    assert(is_digit(digit_char(tenths)) && is_digit(digit_char(hundredths)));
    assert(is_fraction_split(text, point));
    lemma_point_is_first_non_digit(text, point_of(text), point);
    let fraction = fraction_digits(text);
    let value = (whole * pow10(fraction.len()) + decimal_value(fraction)) * 100;
    reveal_with_fuel(pow10, 3);
    reveal_with_fuel(decimal_value, 3);
    if percent % 100 == 0 {
        assert(fraction =~= Seq::<char>::empty());
        assert(whole * pow10(0) == whole) by (nonlinear_arith)
            requires
                pow10(0) == 1,
        ;
        lemma_fundamental_div_mod_converse(value as int, 1, percent as int, 0);
    } else if hundredths == 0 {
        assert(fraction =~= seq![digit_char(tenths)]);
        assert(fraction.drop_last() =~= Seq::<char>::empty());
        assert(decimal_value(fraction) == tenths);
        assert(whole * pow10(1) == whole * 10) by (nonlinear_arith)
            requires
                pow10(1) == 10,
        ;
        lemma_fundamental_div_mod_converse(value as int, 10, percent as int, 0);
    } else {
        assert(fraction =~= seq![digit_char(tenths), digit_char(hundredths)]);
        assert(fraction.drop_last() =~= seq![digit_char(tenths)]);
        assert(fraction.drop_last().drop_last() =~= Seq::<char>::empty());
        assert(decimal_value(fraction) == 10 * tenths + hundredths);
        assert(whole * pow10(2) == whole * 100) by (nonlinear_arith)
            requires
                pow10(2) == 100,
        ;
        lemma_fundamental_div_mod_converse(value as int, 100, percent as int, 0);
    }
}

} // verus!
