//! Game statistics shown after each hard drop: the line clear text, the
//! combo (consecutive drops that clear lines) and back to back (consecutive
//! line clears that are quads or spins).

use vstd::prelude::*;

use crate::field::LineClear;
use crate::pieces::PieceKind;

verus! {

/// Decimal digits of `n`.
pub open spec fn decimal(n: nat) -> Seq<char>
    decreases n,
{
    if n < 10 {
        seq![digit_char(n)]
    } else {
        decimal(n / 10).push(digit_char(n % 10))
    }
}

/// The character of a decimal digit.
pub open spec fn digit_char(d: nat) -> char {
    (('0' as nat) + d) as char
}

/// Words joined by single spaces.
pub open spec fn join_words(words: Seq<Seq<char>>) -> Seq<char>
    decreases words.len(),
{
    if words.len() == 0 {
        Seq::empty()
    } else if words.len() == 1 {
        words[0]
    } else {
        join_words(words.drop_last()) + seq![' '] + words.last()
    }
}

/// The word for clearing `n_lines` lines (one to four).
pub open spec fn lines_word(n_lines: nat) -> Seq<char> {
    if n_lines == 1 {
        seq!['s', 'i', 'n', 'g', 'l', 'e']
    } else if n_lines == 2 {
        seq!['d', 'o', 'u', 'b', 'l', 'e']
    } else if n_lines == 3 {
        seq!['t', 'r', 'i', 'p', 'l', 'e']
    } else {
        seq!['q', 'u', 'a', 'd']
    }
}

/// The words describing a line clear: "mini" for a mini spin, "t-spin" for a
/// spin, and the number of lines as a word (none for no lines).
pub open spec fn clear_words(n_lines: nat, spin: bool, mini: bool) -> Seq<Seq<char>> {
    let w1: Seq<Seq<char>> = if mini {
        seq![seq!['m', 'i', 'n', 'i']]
    } else {
        Seq::empty()
    };
    let w2: Seq<Seq<char>> = if spin {
        seq![seq!['t', '-', 's', 'p', 'i', 'n']]
    } else {
        Seq::empty()
    };
    let w3: Seq<Seq<char>> = if n_lines > 0 {
        seq![lines_word(n_lines)]
    } else {
        Seq::empty()
    };
    w1 + w2 + w3
}

/// The line clear text, e.g. "mini t-spin single".
pub open spec fn clear_text(n_lines: nat, spin: bool, mini: bool) -> Seq<char> {
    join_words(clear_words(n_lines, spin, mini))
}

/// The statistics as values.
pub ghost struct StatsView {
    pub line_clear_text: Seq<char>,
    pub back_to_back_text: Seq<char>,
    pub combo_text: Seq<char>,
    pub back_to_back: nat,
    pub combo: nat,
}

/// The animated texts of the statistics.
#[derive(Copy, Clone, Debug, PartialEq, Eq, Hash, Structural)]
pub enum Animation {
    LineClearText,
    PerfectClearText,
    BackToBackText,
    ComboText,
}

/// The text animations to start, in order: the line clear text if it was
/// set, the perfect clear text for a perfect clear, then back to back and
/// combo if their counts changed.
pub open spec fn started_animations(line_clear: bool, perfect: bool, back_to_back: bool, combo: bool) -> Seq<Animation> {
    let a1: Seq<Animation> = if line_clear {
        seq![Animation::LineClearText]
    } else {
        Seq::empty()
    };
    let a_pc: Seq<Animation> = if perfect {
        seq![Animation::PerfectClearText]
    } else {
        Seq::empty()
    };
    let a2: Seq<Animation> = if back_to_back {
        seq![Animation::BackToBackText]
    } else {
        Seq::empty()
    };
    let a3: Seq<Animation> = if combo {
        seq![Animation::ComboText]
    } else {
        Seq::empty()
    };
    a1 + a_pc + a2 + a3
}

/// Line clear, combo and back-to-back statistics and their texts.
pub struct GameStatsDrawer {
    line_clear_text: String,
    back_to_back_text: String,
    combo_text: String,
    back_to_back: usize,
    combo: usize,
}

impl View for GameStatsDrawer {
    type V = StatsView;

    closed spec fn view(&self) -> StatsView {
        StatsView {
            line_clear_text: self.line_clear_text@,
            back_to_back_text: self.back_to_back_text@,
            combo_text: self.combo_text@,
            back_to_back: self.back_to_back as nat,
            combo: self.combo as nat,
        }
    }
}

/// The decimal digits of `n`.
pub(crate) fn decimal_string(n: usize) -> (r: String)
    ensures
        r@ == decimal(n as nat),
    decreases n,
{
    let digits: [&str; 10] = ["0", "1", "2", "3", "4", "5", "6", "7", "8", "9"];
    let last = n % 10;
    let digit = digits[last];
    proof {
        reveal_strlit("0");
        reveal_strlit("1");
        reveal_strlit("2");
        reveal_strlit("3");
        reveal_strlit("4");
        reveal_strlit("5");
        reveal_strlit("6");
        reveal_strlit("7");
        reveal_strlit("8");
        reveal_strlit("9");
    }
    assert(digit@ == seq![digit_char(last as nat)]);
    if n < 10 {
        String::from_str(digit)
    } else {
        let mut r = decimal_string(n / 10);
        r.append(digit);
        r
    }
}

/// `prefix` followed by the decimal digits of `n`.
fn labelled_count(prefix: &str, n: usize) -> (r: String)
    ensures
        r@ == prefix@ + decimal(n as nat),
{
    let mut r = String::from_str(prefix);
    let digits = decimal_string(n);
    r.append(digits.as_str());
    r
}

/// The line clear text for `n_lines` lines (at most four), a spin and a mini spin.
fn clear_text_string(n_lines: usize, spin: bool, mini: bool) -> (r: String)
    requires
        n_lines <= 4,
    ensures
        r@ == clear_text(n_lines as nat, spin, mini),
{
    proof {
        reveal_strlit("mini");
        reveal_strlit("t-spin");
        reveal_strlit("single");
        reveal_strlit("double");
        reveal_strlit("triple");
        reveal_strlit("quad");
        reveal_strlit(" ");
    }
    let mut words: Vec<&str> = Vec::new();
    if mini {
        words.push("mini");
    }
    if spin {
        words.push("t-spin");
    }
    if n_lines > 0 {
        let n_text: [&str; 5] = ["", "single", "double", "triple", "quad"];
        words.push(n_text[n_lines]);
    }
    let ghost spec_words = clear_words(n_lines as nat, spin, mini);
    assert(words@.len() == spec_words.len());
    assert forall|i: int| 0 <= i < words@.len() implies #[trigger] words@[i]@ == spec_words[i] by {}
    let mut text = String::new();
    let mut i: usize = 0;
    while i < words.len()
        invariant
            i <= words@.len(),
            words@.len() == spec_words.len(),
            forall|j: int| 0 <= j < words@.len() ==> #[trigger] words@[j]@ == spec_words[j],
            text@ == join_words(spec_words.take(i as int)),
        decreases words.len() - i,
    {
        let ghost before = spec_words.take(i as int);
        let ghost after = spec_words.take(i + 1);
        assert(after.drop_last() == before);
        assert(after.last() == spec_words[i as int]);
        let ghost joined = text@;
        if i > 0 {
            let space = " ";
            proof {
                reveal_strlit(" ");
            }
            assert(space@ =~= seq![' ']);
            text.append(space);
            assert(text@ == joined + seq![' ']);
        }
        let word = words[i];
        assert(word@ == spec_words[i as int]);
        text.append(word);
        assert(text@ == join_words(after)) by {
            if i == 0 {
                assert(after[0] == spec_words[0]);
                assert(after.len() == 1);
                assert(joined == Seq::<char>::empty());
                assert(text@ =~= word@);
            } else {
                assert(after.len() > 1);
                assert(join_words(after) == join_words(before) + seq![' '] + spec_words[i as int]);
            }
        }
        i += 1;
    }
    assert(spec_words.take(words@.len() as int) == spec_words);
    text
}

impl GameStatsDrawer {
    /// Empty texts and no combo or back to back.
    pub fn new() -> (r: GameStatsDrawer)
        ensures
            r@ == (StatsView {
                line_clear_text: Seq::empty(),
                back_to_back_text: Seq::empty(),
                combo_text: Seq::empty(),
                back_to_back: 0,
                combo: 0,
            }),
    {
        GameStatsDrawer {
            line_clear_text: String::new(),
            back_to_back_text: String::new(),
            combo_text: String::new(),
            back_to_back: 0,
            combo: 0,
        }
    }

    pub fn line_clear_text(&self) -> (r: &str)
        ensures
            r@ == self@.line_clear_text,
    {
        self.line_clear_text.as_str()
    }

    pub fn back_to_back_text(&self) -> (r: &str)
        ensures
            r@ == self@.back_to_back_text,
    {
        self.back_to_back_text.as_str()
    }

    pub fn combo_text(&self) -> (r: &str)
        ensures
            r@ == self@.combo_text,
    {
        self.combo_text.as_str()
    }

    pub fn back_to_back(&self) -> (r: usize)
        ensures
            r == self@.back_to_back,
    {
        self.back_to_back
    }

    pub fn combo(&self) -> (r: usize)
        ensures
            r == self@.combo,
    {
        self.combo
    }

    /// Update the statistics after a hard drop: a drop that clears lines or
    /// spins sets the line clear text, and starts the perfect clear text too
    /// if it left the field empty; clearing lines continues the combo,
    /// and continues back to back with a quad (or more) or a spin, otherwise
    /// ends it; clearing nothing ends the combo. A changed count gets a new
    /// text. Returns the text animations to start.
    pub fn set_clear_type(&mut self, clear_type: &LineClear) -> (r: Vec<Animation>)
        requires
            clear_type@.0 > 0 || clear_type@.1 is Some ==> clear_type@.0 <= 4,
            old(self)@.back_to_back < usize::MAX,
            old(self)@.combo < usize::MAX,
        ensures
            ({
                let (n, spin, mini) = clear_type@;
                let old_v = old(self)@;
                let new_v = final(self)@;
                let shows_clear = n > 0 || spin is Some;
                let b2b: nat = if n > 0 {
                    if n >= 4 || spin is Some {
                        old_v.back_to_back + 1
                    } else {
                        0
                    }
                } else {
                    old_v.back_to_back
                };
                let combo: nat = if n > 0 {
                    old_v.combo + 1
                } else {
                    0
                };
                &&& r@ == started_animations(
                    shows_clear,
                    shows_clear && clear_type.perfect(),
                    b2b != old_v.back_to_back,
                    combo != old_v.combo,
                )
                &&& new_v.back_to_back == b2b
                &&& new_v.combo == combo
                &&& new_v.line_clear_text == if shows_clear {
                    clear_text(n as nat, spin is Some, mini)
                } else {
                    old_v.line_clear_text
                }
                &&& new_v.back_to_back_text == if b2b != old_v.back_to_back {
                    "back to back: "@ + decimal(b2b)
                } else {
                    old_v.back_to_back_text
                }
                &&& new_v.combo_text == if combo != old_v.combo {
                    "combo: "@ + decimal(combo)
                } else {
                    old_v.combo_text
                }
            }),
    {
        let n_lines = clear_type.n_lines();
        let spin = clear_type.spin();
        let mut animations: Vec<Animation> = Vec::new();

        // update clear type text
        if n_lines > 0 || spin.is_some() {
            self.line_clear_text = clear_text_string(n_lines, spin.is_some(), clear_type.is_mini());
            animations.push(Animation::LineClearText);
            if clear_type.is_perfect_clear() {
                animations.push(Animation::PerfectClearText);
            }
        }
        let old_back_to_back = self.back_to_back;
        let old_combo = self.combo;

        // update back to back, combo, and corresponding text
        if n_lines > 0 {
            // quads and higher and line-clearing spins keep back to back
            if n_lines >= 4 || spin.is_some() {
                self.back_to_back = self.back_to_back + 1;
            } else {
                self.back_to_back = 0;
            }
            self.combo = self.combo + 1;
        } else {
            self.combo = 0;
        }

        // only show back to back and combo text if it is not zero or if it was just reset
        if old_back_to_back != self.back_to_back {
            self.back_to_back_text = labelled_count("back to back: ", self.back_to_back);
            animations.push(Animation::BackToBackText);
        }
        if old_combo != self.combo {
            self.combo_text = labelled_count("combo: ", self.combo);
            animations.push(Animation::ComboText);
        }
        animations
    }
}


/// The words of the line clear text of the game view: "mini" for a mini
/// spin, the spinning piece's name with "-spin", and the number of lines as
/// a word (none for no lines).
pub open spec fn spin_clear_words(n_lines: nat, spin: Option<PieceKind>, mini: bool) -> Seq<Seq<char>> {
    let w1: Seq<Seq<char>> = if mini {
        seq![seq!['m', 'i', 'n', 'i']]
    } else {
        Seq::empty()
    };
    let w2: Seq<Seq<char>> = match spin {
        Some(kind) => seq![kind.display() + seq!['-', 's', 'p', 'i', 'n']],
        None => Seq::empty(),
    };
    let w3: Seq<Seq<char>> = if n_lines > 0 {
        seq![lines_word(n_lines)]
    } else {
        Seq::empty()
    };
    w1 + w2 + w3
}

/// The views of a sequence of strings.
pub open spec fn string_views(words: Seq<String>) -> Seq<Seq<char>> {
    Seq::new(words.len(), |i: int| words[i]@)
}

/// The words joined by single spaces.
fn joined(words: &Vec<String>) -> (r: String)
    ensures
        r@ == join_words(string_views(words@)),
{
    let ghost spec_words = string_views(words@);
    let mut text = String::new();
    let mut i: usize = 0;
    while i < words.len()
        invariant
            i <= words@.len(),
            spec_words == string_views(words@),
            text@ == join_words(spec_words.take(i as int)),
        decreases words.len() - i,
    {
        let ghost before = spec_words.take(i as int);
        let ghost after = spec_words.take(i + 1);
        assert(after.drop_last() == before);
        assert(after.last() == words@[i as int]@);
        let ghost so_far = text@;
        if i > 0 {
            let space = " ";
            proof {
                reveal_strlit(" ");
            }
            text.append(space);
            assert(text@ == so_far + seq![' ']);
        }
        text.append(words[i].as_str());
        assert(text@ == join_words(after)) by {
            if i == 0 {
                assert(after.len() == 1);
                assert(so_far == Seq::<char>::empty());
                assert(text@ =~= words@[0]@);
            } else {
                assert(join_words(after) == join_words(before) + seq![' '] + words@[i as int]@);
            }
        }
        i += 1;
    }
    assert(spec_words.take(words@.len() as int) == spec_words);
    text
}

/// The line clear text of the game view for `n_lines` lines (at most
/// four), a spin of `spin` and a mini spin.
fn spin_clear_text(n_lines: usize, spin: Option<PieceKind>, mini: bool) -> (r: String)
    requires
        n_lines <= 4,
    ensures
        r@ == join_words(spin_clear_words(n_lines as nat, spin, mini)),
{
    proof {
        reveal_strlit("mini");
        reveal_strlit("-spin");
        reveal_strlit("single");
        reveal_strlit("double");
        reveal_strlit("triple");
        reveal_strlit("quad");
    }
    let ghost w1: Seq<Seq<char>> = if mini {
        seq![seq!['m', 'i', 'n', 'i']]
    } else {
        Seq::empty()
    };
    let ghost w2: Seq<Seq<char>> = match spin {
        Some(kind) => seq![kind.display() + seq!['-', 's', 'p', 'i', 'n']],
        None => Seq::empty(),
    };
    let ghost w3: Seq<Seq<char>> = if n_lines > 0 {
        seq![lines_word(n_lines as nat)]
    } else {
        Seq::empty()
    };
    let mut words: Vec<String> = Vec::new();
    if mini {
        let word = String::from_str("mini");
        assert(word@ =~= seq!['m', 'i', 'n', 'i']);
        words.push(word);
    }
    assert(string_views(words@) =~= w1);
    match spin {
        Some(kind) => {
            let mut word = String::from_str(kind.display_name());
            word.append("-spin");
            assert(word@ =~= kind.display() + seq!['-', 's', 'p', 'i', 'n']);
            let ghost before = words@;
            words.push(word);
            assert(string_views(words@) =~= string_views(before).push(word@));
        },
        None => {},
    }
    assert(string_views(words@) =~= w1 + w2);
    if n_lines > 0 {
        let n_text: [&str; 5] = ["", "single", "double", "triple", "quad"];
        let ghost before = words@;
        let word = String::from_str(n_text[n_lines]);
        assert(word@ =~= lines_word(n_lines as nat));
        words.push(word);
        assert(string_views(words@) =~= string_views(before).push(word@));
    }
    assert(string_views(words@) =~= w1 + w2 + w3);
    joined(&words)
}

/// The statistics shown beside the field: the line clear text, and the
/// combo and back-to-back counts with their texts ("3x combo", "2x b2b").
/// The texts read "<unset>" until first set.
pub struct Stats {
    line_clear_text: String,
    pc_text: String,
    combo_text: String,
    b2b_text: String,
    combo: usize,
    b2b: usize,
}

impl View for Stats {
    type V = StatsView;

    closed spec fn view(&self) -> StatsView {
        StatsView {
            line_clear_text: self.line_clear_text@,
            back_to_back_text: self.b2b_text@,
            combo_text: self.combo_text@,
            back_to_back: self.b2b as nat,
            combo: self.combo as nat,
        }
    }
}

/// The text animations the game view starts, in order: the line clear text
/// if it was set, the perfect clear text for a perfect clear, then combo and
/// back to back if their counts changed.
pub open spec fn view_animations(line_clear: bool, perfect: bool, combo: bool, back_to_back: bool) -> Seq<Animation> {
    started_animations(line_clear, perfect, false, false) + started_animations(false, false, false, combo)
        + started_animations(false, false, back_to_back, false)
}

impl Stats {
    /// The perfect clear text: "perfect clear" once a clear left the field
    /// empty.
    pub closed spec fn perfect_clear_text(&self) -> Seq<char> {
        self.pc_text@
    }

    /// No combo or back to back yet, and no text set.
    pub fn new() -> (r: Stats)
        ensures
            r.perfect_clear_text() == "<unset>"@,
            r@ == (StatsView {
                line_clear_text: "<unset>"@,
                back_to_back_text: "<unset>"@,
                combo_text: "<unset>"@,
                back_to_back: 0,
                combo: 0,
            }),
    {
        Stats {
            line_clear_text: String::from_str("<unset>"),
            pc_text: String::from_str("<unset>"),
            combo_text: String::from_str("<unset>"),
            b2b_text: String::from_str("<unset>"),
            combo: 0,
            b2b: 0,
        }
    }

    pub fn line_clear_text(&self) -> (r: &str)
        ensures
            r@ == self@.line_clear_text,
    {
        self.line_clear_text.as_str()
    }

    pub fn combo_text(&self) -> (r: &str)
        ensures
            r@ == self@.combo_text,
    {
        self.combo_text.as_str()
    }

    pub fn b2b_text(&self) -> (r: &str)
        ensures
            r@ == self@.back_to_back_text,
    {
        self.b2b_text.as_str()
    }

    pub fn pc_text(&self) -> (r: &str)
        ensures
            r@ == self.perfect_clear_text(),
    {
        self.pc_text.as_str()
    }

    pub fn combo(&self) -> (r: usize)
        ensures
            r == self@.combo,
    {
        self.combo
    }

    pub fn b2b(&self) -> (r: usize)
        ensures
            r == self@.back_to_back,
    {
        self.b2b
    }

    /// Update the statistics with the last line clear: a clear of lines or a
    /// spin sets the line clear text; a clear that left the field empty sets
    /// the perfect clear text; clearing lines continues the combo, and
    /// continues back to back with a quad (or more) or a spin, otherwise ends
    /// it; clearing nothing ends the combo. A changed count gets a new text.
    /// Returns the text animations to start.
    pub fn update(&mut self, last_line_clear: &LineClear) -> (r: Vec<Animation>)
        requires
            last_line_clear@.0 > 0 || last_line_clear@.1 is Some ==> last_line_clear@.0 <= 4,
            old(self)@.back_to_back < usize::MAX,
            old(self)@.combo < usize::MAX,
        ensures
            ({
                let (n, spin, mini) = last_line_clear@;
                let old_v = old(self)@;
                let new_v = final(self)@;
                let shows_clear = n > 0 || spin is Some;
                let combo: nat = if n > 0 {
                    old_v.combo + 1
                } else {
                    0
                };
                let b2b: nat = if n > 0 {
                    if n >= 4 || spin is Some {
                        old_v.back_to_back + 1
                    } else {
                        0
                    }
                } else {
                    old_v.back_to_back
                };
                &&& r@ == view_animations(
                    shows_clear,
                    last_line_clear.perfect(),
                    combo != old_v.combo,
                    b2b != old_v.back_to_back,
                )
                &&& final(self).perfect_clear_text() == if last_line_clear.perfect() {
                    "perfect clear"@
                } else {
                    old(self).perfect_clear_text()
                }
                &&& new_v.combo == combo
                &&& new_v.back_to_back == b2b
                &&& new_v.line_clear_text == if shows_clear {
                    join_words(spin_clear_words(n as nat, spin, mini))
                } else {
                    old_v.line_clear_text
                }
                &&& new_v.combo_text == if combo != old_v.combo {
                    decimal(combo) + "x combo"@
                } else {
                    old_v.combo_text
                }
                &&& new_v.back_to_back_text == if b2b != old_v.back_to_back {
                    decimal(b2b) + "x b2b"@
                } else {
                    old_v.back_to_back_text
                }
            }),
    {
        let n_lines = last_line_clear.n_lines();
        let spin = last_line_clear.spin();
        let mut animations: Vec<Animation> = Vec::new();

        // update the line clear text if lines were cleared or the last locked piece was a spin
        if n_lines > 0 || spin.is_some() {
            self.line_clear_text = spin_clear_text(n_lines, spin, last_line_clear.is_mini());
            animations.push(Animation::LineClearText);
        }
        if last_line_clear.is_perfect_clear() {
            self.pc_text = String::from_str("perfect clear");
            animations.push(Animation::PerfectClearText);
        }
        let old_combo = self.combo;
        let old_b2b = self.b2b;
        if n_lines > 0 {
            self.combo = self.combo + 1;
            // quad or higher or spin keeps b2b
            if n_lines >= 4 || spin.is_some() {
                self.b2b = self.b2b + 1;
            } else {
                self.b2b = 0;
            }
        } else {
            self.combo = 0;
        }

        // update combo and b2b text if the values changed
        if old_combo != self.combo {
            self.combo_text = count_labelled(self.combo, "x combo");
            animations.push(Animation::ComboText);
        }
        if old_b2b != self.b2b {
            self.b2b_text = count_labelled(self.b2b, "x b2b");
            animations.push(Animation::BackToBackText);
        }
        animations
    }
}

/// The decimal digits of `n` followed by `suffix`.
fn count_labelled(n: usize, suffix: &str) -> (r: String)
    ensures
        r@ == decimal(n as nat) + suffix@,
{
    let mut r = decimal_string(n);
    r.append(suffix);
    r
}

} // verus!
