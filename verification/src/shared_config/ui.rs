//! The ui section: hotkeys, the markets table and panel states.

use crate::le::{le_u32};
use crate::shared_config::error::{SharedConfigError};
use crate::shared_config::reader::{ConfigReader, bools_at, eof_msg, i32_at};
use crate::shared_config::writer::{ConfigWriter, bool_byte, bools_bytes, flag_of, lemma_bool_byte, lemma_wrote_all_of_wrote, lemma_wrote_all_then, string_fits, string_x_bytes};
use crate::shared_config::codec_lemmas::{lemma_le_i32_roundtrip, lemma_seq_split, lemma_subrange_of_prefix};
use crate::shared_config::ini::{tail_of};
use crate::shared_config::signals::{lemma_parts_at, lemma_text_at, read_text, string_end, string_ok, text_at};
use crate::shared_config::float_records::{HOTKEYS_CONFIG_LEN, HotkeysConfig, hotkeys_config_at, hotkeys_config_bytes, lemma_hotkeys_config_at, lemma_hotkeys_config_roundtrip, read_hotkeys_config, write_hotkeys_config};
use crate::shared_config::records::{MARKETS_TABLE_CONFIG_LEN, MarketsTableConfig, lemma_markets_table_config_at, lemma_markets_table_config_roundtrip, markets_table_config_at, markets_table_config_bytes, read_markets_table_config, write_markets_table_config};
use vstd::prelude::*;

verus! {

broadcast use crate::le::group_le_len;
/// Hotkeys, markets table layout, toolbar, strategy editor state.
#[derive(Clone, Debug)]
pub struct UiSection {
    /// Hide the demo-mode button.
    pub hide_demo_button: bool,
    /// Confirm before closing the application.
    pub confirm_close: bool,
    /// Show newly listed markets at the top of the list.
    pub new_markets_on_top: bool,
    /// Coin list sort order index.
    pub coins_sort_order: i32,
    /// Keyboard shortcuts for order operations.
    pub hotkeys_config: HotkeysConfig,
    /// Strategy editor chapter expansion state (comma-separated indices).
    pub strat_editor_chapters: String,
    /// Markets table column layout.
    pub markets_table_config: MarketsTableConfig,
    /// Index of the main toolbar button in slot 1
    /// (MBT_Help=1, MBT_Reports=2, MBT_Alerts=3, MBT_Transfer=4, MBT_BackTest=6).
    pub main_button_index_1: u8,
    /// Per-strategy expand/collapse state in the editor (11 slots).
    pub strat_expanded_state: [bool; 11],
    /// Opaque bytes from a newer MoonBot version (preserved for roundtrip).
    pub unknown_tail: Vec<u8>,
}

impl UiSection {
    /// Whether every field holds the value that [`UiSection::default`] gives.
    pub open spec fn is_default(&self) -> bool {
        &&& self.hide_demo_button == true
        &&& self.confirm_close == true
        &&& self.new_markets_on_top == false
        &&& self.coins_sort_order == 1
        &&& self.strat_editor_chapters@ == Seq::<char>::empty()
        &&& self.main_button_index_1 == 1
        &&& forall|i: int| 0 <= i < 11 ==> self.strat_expanded_state@[i]
        &&& self.unknown_tail@.len() == 0
        &&& self.hotkeys_config.is_default()
        &&& self.markets_table_config.is_default()
    }
}

impl Default for UiSection {
    fn default() -> (r: Self)
        ensures
            r.is_default(),
    {
        UiSection {
            hide_demo_button: true,
            confirm_close: true,
            new_markets_on_top: false,
            coins_sort_order: 1,
            hotkeys_config: HotkeysConfig::default(),
            strat_editor_chapters: String::new(),
            markets_table_config: MarketsTableConfig::default(),
            main_button_index_1: 1,
            strat_expanded_state: [true; 11],
            unknown_tail: Vec::new(),
        }
    }
}

/// Fixed-width fields of the ui section from `hide_demo_button` to `coins_sort_order`, in wire order.
#[derive(Clone, Copy, Debug)]
pub struct UiRun1 {
    /// Hide the demo-mode button.
    pub hide_demo_button: bool,
    /// Confirm before closing the application.
    pub confirm_close: bool,
    /// Show newly listed markets at the top of the list.
    pub new_markets_on_top: bool,
    /// Coin list sort order index.
    pub coins_sort_order: i32,
}

/// Wire size of [`UiRun1`].
pub const UI_RUN1_LEN: usize = 7;

/// Wire bytes of a [`UiRun1`], field after field.
pub open spec fn ui_run1_bytes(c: UiRun1) -> Seq<u8> {
    seq![bool_byte(c.hide_demo_button)]
        + seq![bool_byte(c.confirm_close)]
        + seq![bool_byte(c.new_markets_on_top)]
        + le_u32(c.coins_sort_order as u32)
}

/// Whether `c` is the [`UiRun1`] stored at `p`.
pub open spec fn ui_run1_at(d: Seq<u8>, p: int, c: UiRun1) -> bool {
    &&& c.hide_demo_button == flag_of(d[p])
    &&& c.confirm_close == flag_of(d[p + 1])
    &&& c.new_markets_on_top == flag_of(d[p + 2])
    &&& c.coins_sort_order == i32_at(d, p + 3)
}

/// Read a [`UiRun1`].
pub fn read_ui_run1(r: &mut ConfigReader) -> (res: Result<UiRun1, SharedConfigError>)
    ensures
        final(r).bytes() == old(r).bytes(),
        old(r).at() + UI_RUN1_LEN <= old(r).bytes().len() ==> (res matches Ok(c) && ui_run1_at(
            old(r).bytes(),
            old(r).at(),
            c,
        ) && final(r).at() == old(r).at() + UI_RUN1_LEN),
        old(r).at() + UI_RUN1_LEN > old(r).bytes().len() ==> (res matches Err(e) && e@ == eof_msg()),
{
    Ok(UiRun1 {
        hide_demo_button: r.read_bool()?,
        confirm_close: r.read_bool()?,
        new_markets_on_top: r.read_bool()?,
        coins_sort_order: r.read_i32()?,
    })
}

/// Write a [`UiRun1`].
pub fn write_ui_run1(w: &mut ConfigWriter, c: &UiRun1)
    requires
        old(w).wf(),
    ensures
        final(w).wf(),
        final(w).wrote_all(old(w), true, ui_run1_bytes(*c)),
{
    let ghost w0 = *w;
    let ghost wb = *w;
    w.write_bool(c.hide_demo_button);
    proof { lemma_wrote_all_of_wrote(wb, *w, seq![bool_byte(c.hide_demo_button)]); }
    let ghost wb = *w;
    w.write_bool(c.confirm_close);
    proof {
        lemma_wrote_all_of_wrote(wb, *w, seq![bool_byte(c.confirm_close)]);
        lemma_wrote_all_then(w0, wb, *w, true, seq![bool_byte(c.hide_demo_button)], true, seq![bool_byte(c.confirm_close)]);
    }
    let ghost wb = *w;
    w.write_bool(c.new_markets_on_top);
    proof {
        lemma_wrote_all_of_wrote(wb, *w, seq![bool_byte(c.new_markets_on_top)]);
        lemma_wrote_all_then(w0, wb, *w, true, seq![bool_byte(c.hide_demo_button)] + seq![bool_byte(c.confirm_close)], true, seq![bool_byte(c.new_markets_on_top)]);
    }
    let ghost wb = *w;
    w.write_i32(c.coins_sort_order);
    proof {
        lemma_wrote_all_of_wrote(wb, *w, le_u32(c.coins_sort_order as u32));
        lemma_wrote_all_then(w0, wb, *w, true, seq![bool_byte(c.hide_demo_button)] + seq![bool_byte(c.confirm_close)] + seq![bool_byte(c.new_markets_on_top)], true, le_u32(c.coins_sort_order as u32));
    }
}

/// The fields of a [`UiRun1`] read back from its bytes.
pub proof fn lemma_ui_run1_at(c: UiRun1, d: Seq<u8>, o: int)
    requires
        0 <= o,
        o + 7 <= d.len(),
        d.subrange(o, o + 7) == ui_run1_bytes(c),
    ensures
        ui_run1_bytes(c).len() == 7,
        ui_run1_at(d, o, c),
{
    let b0 = seq![bool_byte(c.hide_demo_button)];
    let b1 = b0 + seq![bool_byte(c.confirm_close)];
    let b2 = b1 + seq![bool_byte(c.new_markets_on_top)];
    let b3 = b2 + le_u32(c.coins_sort_order as u32);
    let e = d.subrange(o, o + 7);
    assert(e == b3);
    lemma_seq_split(b2, le_u32(c.coins_sort_order as u32));
    lemma_subrange_of_prefix(e, 7, 0, 3);
    lemma_subrange_of_prefix(e, 7, 3, 7);
    lemma_seq_split(b1, seq![bool_byte(c.new_markets_on_top)]);
    lemma_subrange_of_prefix(e, 3, 0, 2);
    lemma_subrange_of_prefix(e, 3, 2, 3);
    lemma_seq_split(b0, seq![bool_byte(c.confirm_close)]);
    lemma_subrange_of_prefix(e, 2, 0, 1);
    lemma_subrange_of_prefix(e, 2, 1, 2);
    assert(e.subrange(0, 1) == seq![bool_byte(c.hide_demo_button)]);
    assert(d[o + 0] == e.subrange(0, 1)[0]);
    lemma_bool_byte(c.hide_demo_button);
    assert(e.subrange(1, 2) == seq![bool_byte(c.confirm_close)]);
    assert(d[o + 1] == e.subrange(1, 2)[0]);
    lemma_bool_byte(c.confirm_close);
    assert(e.subrange(2, 3) == seq![bool_byte(c.new_markets_on_top)]);
    assert(d[o + 2] == e.subrange(2, 3)[0]);
    lemma_bool_byte(c.new_markets_on_top);
    assert(e.subrange(3, 7) == le_u32(c.coins_sort_order as u32));
    lemma_le_i32_roundtrip(c.coins_sort_order);
    assert(d[o + 3] == e.subrange(3, 7)[0] && d[o + 4] == e.subrange(3, 7)[1] && d[o + 5] == e.subrange(3, 7)[2] && d[o + 6] == e.subrange(3, 7)[3]);
}

/// Reading back the bytes of a [`UiRun1`] gives the same record.
pub proof fn lemma_ui_run1_roundtrip(c: UiRun1, rest: Seq<u8>)
    ensures
        ui_run1_bytes(c).len() == UI_RUN1_LEN,
        ui_run1_at(ui_run1_bytes(c) + rest, 0, c),
{
    lemma_seq_split(ui_run1_bytes(c), rest);
    lemma_ui_run1_at(c, ui_run1_bytes(c) + rest, 0);
}

/// The fields of a [`UiSection`] that a [`UiRun1`] holds.
pub open spec fn ui_run1_of(s: UiSection) -> UiRun1 {
    UiRun1 { hide_demo_button: s.hide_demo_button, confirm_close: s.confirm_close, new_markets_on_top: s.new_markets_on_top, coins_sort_order: s.coins_sort_order }
}

/// Copy the fields of a [`UiSection`] that a [`UiRun1`] holds.
fn ui_run1_from(s: &UiSection) -> (r: UiRun1)
    ensures
        r == ui_run1_of(*s),
{
    UiRun1 { hide_demo_button: s.hide_demo_button, confirm_close: s.confirm_close, new_markets_on_top: s.new_markets_on_top, coins_sort_order: s.coins_sort_order }
}

/// Fixed-width fields of the ui section from `main_button_index_1` to `strat_expanded_state`, in wire order.
#[derive(Clone, Copy, Debug)]
pub struct UiRun2 {
    /// Index of the main toolbar button in slot 1
    /// (MBT_Help=1, MBT_Reports=2, MBT_Alerts=3, MBT_Transfer=4, MBT_BackTest=6).
    pub main_button_index_1: u8,
    /// Per-strategy expand/collapse state in the editor (11 slots).
    pub strat_expanded_state: [bool; 11],
}

/// Wire size of [`UiRun2`].
pub const UI_RUN2_LEN: usize = 12;

/// Wire bytes of a [`UiRun2`], field after field.
pub open spec fn ui_run2_bytes(c: UiRun2) -> Seq<u8> {
    seq![c.main_button_index_1]
        + bools_bytes(c.strat_expanded_state@)
}

/// Whether `c` is the [`UiRun2`] stored at `p`.
pub open spec fn ui_run2_at(d: Seq<u8>, p: int, c: UiRun2) -> bool {
    &&& c.main_button_index_1 == d[p]
    &&& c.strat_expanded_state@ == bools_at(d, p + 1, 11)
}

/// Read a [`UiRun2`].
pub fn read_ui_run2(r: &mut ConfigReader) -> (res: Result<UiRun2, SharedConfigError>)
    ensures
        final(r).bytes() == old(r).bytes(),
        old(r).at() + UI_RUN2_LEN <= old(r).bytes().len() ==> (res matches Ok(c) && ui_run2_at(
            old(r).bytes(),
            old(r).at(),
            c,
        ) && final(r).at() == old(r).at() + UI_RUN2_LEN),
        old(r).at() + UI_RUN2_LEN > old(r).bytes().len() ==> (res matches Err(e) && e@ == eof_msg()),
{
    Ok(UiRun2 {
        main_button_index_1: r.read_u8()?,
        strat_expanded_state: r.read_bool_array::<11>()?,
    })
}

/// Write a [`UiRun2`].
pub fn write_ui_run2(w: &mut ConfigWriter, c: &UiRun2)
    requires
        old(w).wf(),
    ensures
        final(w).wf(),
        final(w).wrote_all(old(w), true, ui_run2_bytes(*c)),
{
    let ghost w0 = *w;
    let ghost wb = *w;
    w.write_u8(c.main_button_index_1);
    proof { lemma_wrote_all_of_wrote(wb, *w, seq![c.main_button_index_1]); }
    let ghost wb = *w;
    w.write_bool_array(c.strat_expanded_state.as_slice());
    proof {
        lemma_wrote_all_then(w0, wb, *w, true, seq![c.main_button_index_1], true, bools_bytes(c.strat_expanded_state@));
    }
}

/// The fields of a [`UiRun2`] read back from its bytes.
pub proof fn lemma_ui_run2_at(c: UiRun2, d: Seq<u8>, o: int)
    requires
        0 <= o,
        o + 12 <= d.len(),
        d.subrange(o, o + 12) == ui_run2_bytes(c),
    ensures
        ui_run2_bytes(c).len() == 12,
        ui_run2_at(d, o, c),
{
    let b0 = seq![c.main_button_index_1];
    let b1 = b0 + bools_bytes(c.strat_expanded_state@);
    let e = d.subrange(o, o + 12);
    assert(e == b1);
    lemma_seq_split(b0, bools_bytes(c.strat_expanded_state@));
    lemma_subrange_of_prefix(e, 12, 0, 1);
    lemma_subrange_of_prefix(e, 12, 1, 12);
    assert(e.subrange(0, 1) == seq![c.main_button_index_1]);
    assert(d[o + 0] == e.subrange(0, 1)[0]);
    assert(e.subrange(1, 12) == bools_bytes(c.strat_expanded_state@));
    assert(d.subrange(o + 1, o + 12) =~= e.subrange(1, 12));
    assert(bools_at(d, o + 1, 11) =~= c.strat_expanded_state@) by {
        assert forall|j: int| 0 <= j < 11 implies flag_of(d[o + 1 + j]) == c.strat_expanded_state@[j] by {
            assert(d[o + 1 + j] == d.subrange(o + 1, o + 12)[j]);
            lemma_bool_byte(c.strat_expanded_state@[j]);
        }
    }
}

/// Reading back the bytes of a [`UiRun2`] gives the same record.
pub proof fn lemma_ui_run2_roundtrip(c: UiRun2, rest: Seq<u8>)
    ensures
        ui_run2_bytes(c).len() == UI_RUN2_LEN,
        ui_run2_at(ui_run2_bytes(c) + rest, 0, c),
{
    lemma_seq_split(ui_run2_bytes(c), rest);
    lemma_ui_run2_at(c, ui_run2_bytes(c) + rest, 0);
}

/// The fields of a [`UiSection`] that a [`UiRun2`] holds.
pub open spec fn ui_run2_of(s: UiSection) -> UiRun2 {
    UiRun2 { main_button_index_1: s.main_button_index_1, strat_expanded_state: s.strat_expanded_state }
}

/// Copy the fields of a [`UiSection`] that a [`UiRun2`] holds.
fn ui_run2_from(s: &UiSection) -> (r: UiRun2)
    ensures
        r == ui_run2_of(*s),
{
    UiRun2 { main_button_index_1: s.main_button_index_1, strat_expanded_state: s.strat_expanded_state }
}

/// Where the fields of a ui block body at `x` start: after the version byte.
pub open spec fn ui_pos0(d: Seq<u8>, x: int, be: int) -> int {
    x + 1
}

/// The position after field group 0 of a ui block body at `x`.
pub open spec fn ui_pos1(d: Seq<u8>, x: int, be: int) -> int {
    let p = ui_pos0(d, x, be);
    p + UI_RUN1_LEN
}

/// The position after field group 1 of a ui block body at `x`.
pub open spec fn ui_pos2(d: Seq<u8>, x: int, be: int) -> int {
    let p = ui_pos1(d, x, be);
    p + HOTKEYS_CONFIG_LEN
}

/// The position after field group 2 of a ui block body at `x`.
pub open spec fn ui_pos3(d: Seq<u8>, x: int, be: int) -> int {
    let p = ui_pos2(d, x, be);
    string_end(d, p)
}

/// The position after field group 3 of a ui block body at `x`.
pub open spec fn ui_pos4(d: Seq<u8>, x: int, be: int) -> int {
    let p = ui_pos3(d, x, be);
    p + MARKETS_TABLE_CONFIG_LEN
}

/// The position after field group 4 of a ui block body at `x`.
pub open spec fn ui_pos5(d: Seq<u8>, x: int, be: int) -> int {
    let p = ui_pos4(d, x, be);
    p + UI_RUN2_LEN
}

/// Whether field groups 0 to 4 of a ui block body at `x` can be read.
#[verifier::opaque]
pub open spec fn ui_ok1(d: Seq<u8>, x: int, be: int) -> bool {
    let p0 = ui_pos0(d, x, be);
    let p1 = ui_pos1(d, x, be);
    let p2 = ui_pos2(d, x, be);
    let p3 = ui_pos3(d, x, be);
    let p4 = ui_pos4(d, x, be);
    &&& (p0 + UI_RUN1_LEN <= d.len())
    &&& (p1 + HOTKEYS_CONFIG_LEN <= d.len())
    &&& (string_ok(d, p2))
    &&& (p3 + MARKETS_TABLE_CONFIG_LEN <= d.len())
    &&& (p4 + UI_RUN2_LEN <= d.len())
}

/// Whether `s` holds field groups 0 to 4 of the ui block body at `x`.
#[verifier::opaque]
pub open spec fn ui_got1(d: Seq<u8>, x: int, be: int, s: UiSection) -> bool {
    let p0 = ui_pos0(d, x, be);
    let p1 = ui_pos1(d, x, be);
    let p2 = ui_pos2(d, x, be);
    let p3 = ui_pos3(d, x, be);
    let p4 = ui_pos4(d, x, be);
    &&& ui_run1_at(d, p0, ui_run1_of(s))
    &&& hotkeys_config_at(d, p1, s.hotkeys_config)
    &&& s.strat_editor_chapters@ == text_at(d, p2)
    &&& markets_table_config_at(d, p3, s.markets_table_config)
    &&& ui_run2_at(d, p4, ui_run2_of(s))
}

/// Bytes of field groups 0 to 4 of a ui section.
#[verifier::opaque]
pub open spec fn ui_bytes1(s: UiSection) -> Seq<u8> {
    ui_run1_bytes(ui_run1_of(s))
        + hotkeys_config_bytes(s.hotkeys_config)
        + string_x_bytes(s.strat_editor_chapters@)
        + markets_table_config_bytes(s.markets_table_config)
        + ui_run2_bytes(ui_run2_of(s))
}

/// Whether the strings of field groups 0 to 4 of a ui section fit their limit.
#[verifier::opaque]
pub open spec fn ui_fits1(s: UiSection) -> bool {
    string_fits(s.strat_editor_chapters@)
}

/// Read field groups 0 to 4 of the ui block body at `x`.
fn read_ui_part1(r: &mut ConfigReader, be: usize, Ghost(x): Ghost<int>) -> (res: Result<(UiRun1, HotkeysConfig, String, MarketsTableConfig, UiRun2), SharedConfigError>)
    requires
        old(r).at() == ui_pos0(old(r).bytes(), x, be as int),
    ensures
        final(r).bytes() == old(r).bytes(),
        ui_ok1(old(r).bytes(), x, be as int) ==> (res matches Ok(t) && {
            let d = old(r).bytes();
            &&& ui_run1_at(d, ui_pos0(d, x, be as int), t.0)
            &&& hotkeys_config_at(d, ui_pos1(d, x, be as int), t.1)
            &&& t.2@ == text_at(d, ui_pos2(d, x, be as int))
            &&& markets_table_config_at(d, ui_pos3(d, x, be as int), t.3)
            &&& ui_run2_at(d, ui_pos4(d, x, be as int), t.4)
            &&& final(r).at() == ui_pos5(d, x, be as int)
        }),
        !ui_ok1(old(r).bytes(), x, be as int) ==> res is Err,
{
    proof { reveal(ui_ok1); }
    let v0 = read_ui_run1(r)?;
    let v1 = read_hotkeys_config(r)?;
    let v2 = read_text(r)?;
    let v3 = read_markets_table_config(r)?;
    let v4 = read_ui_run2(r)?;
    Ok((v0, v1, v2, v3, v4))
}

/// Write field groups 0 to 4 of a ui section.
fn write_ui_part1(w: &mut ConfigWriter, s: &UiSection)
    requires
        old(w).wf(),
    ensures
        final(w).wf(),
        final(w).wrote_all(old(w), ui_fits1(*s), ui_bytes1(*s)),
{
    proof { reveal(ui_bytes1); reveal(ui_fits1); }
    let ghost w0 = *w;
    let ghost wb = *w;
    let t0 = ui_run1_from(s);
    write_ui_run1(w, &t0);
    let ghost wb = *w;
    write_hotkeys_config(w, &s.hotkeys_config);
    proof {
        lemma_wrote_all_then(w0, wb, *w, true, ui_run1_bytes(ui_run1_of(*s)), true, hotkeys_config_bytes((*s).hotkeys_config));
    }
    let ghost wb = *w;
    w.write_string_x(s.strat_editor_chapters.as_str());
    proof {
        lemma_wrote_all_then(w0, wb, *w, true, ui_run1_bytes(ui_run1_of(*s)) + hotkeys_config_bytes((*s).hotkeys_config), string_fits((*s).strat_editor_chapters@), string_x_bytes((*s).strat_editor_chapters@));
    }
    let ghost wb = *w;
    write_markets_table_config(w, &s.markets_table_config);
    proof {
        lemma_wrote_all_then(w0, wb, *w, string_fits((*s).strat_editor_chapters@), ui_run1_bytes(ui_run1_of(*s)) + hotkeys_config_bytes((*s).hotkeys_config) + string_x_bytes((*s).strat_editor_chapters@), true, markets_table_config_bytes((*s).markets_table_config));
    }
    let ghost wb = *w;
    let t4 = ui_run2_from(s);
    write_ui_run2(w, &t4);
    proof {
        lemma_wrote_all_then(w0, wb, *w, string_fits((*s).strat_editor_chapters@), ui_run1_bytes(ui_run1_of(*s)) + hotkeys_config_bytes((*s).hotkeys_config) + string_x_bytes((*s).strat_editor_chapters@) + markets_table_config_bytes((*s).markets_table_config), true, ui_run2_bytes(ui_run2_of(*s)));
    }
}

/// Field groups 0 to 4 of a ui section read back from their bytes.
#[verifier::spinoff_prover]
#[verifier::rlimit(50)]
pub proof fn lemma_ui_part1(s: UiSection, d: Seq<u8>, x: int, be: int)
    requires
        ui_fits1(s),
        0 <= ui_pos0(d, x, be),
        ui_pos0(d, x, be) + ui_bytes1(s).len() <= be <= d.len(),
        d.subrange(ui_pos0(d, x, be), ui_pos0(d, x, be) + ui_bytes1(s).len()) == ui_bytes1(s),
    ensures
        ui_ok1(d, x, be),
        ui_pos5(d, x, be) == ui_pos0(d, x, be) + ui_bytes1(s).len(),
        ui_got1(d, x, be, s),
{
    reveal(ui_ok1);
    reveal(ui_got1);
    reveal(ui_bytes1);
    reveal(ui_fits1);
    let p = ui_pos0(d, x, be);
    let b0 = ui_run1_bytes(ui_run1_of(s));
    let b1 = hotkeys_config_bytes(s.hotkeys_config);
    let b2 = string_x_bytes(s.strat_editor_chapters@);
    let b3 = markets_table_config_bytes(s.markets_table_config);
    let b4 = ui_run2_bytes(ui_run2_of(s));
    lemma_ui_run1_roundtrip(ui_run1_of(s), Seq::<u8>::empty());
    lemma_hotkeys_config_roundtrip(s.hotkeys_config, Seq::<u8>::empty());
    lemma_markets_table_config_roundtrip(s.markets_table_config, Seq::<u8>::empty());
    lemma_ui_run2_roundtrip(ui_run2_of(s), Seq::<u8>::empty());
    assert(ui_bytes1(s) == b0 + b1 + b2 + b3 + b4);
    lemma_parts_at(d, p, b0 + b1 + b2 + b3, b4);
    lemma_parts_at(d, p, b0 + b1 + b2, b3);
    lemma_parts_at(d, p, b0 + b1, b2);
    lemma_parts_at(d, p, b0, b1);
    let o0 = p;
    assert(ui_pos0(d, x, be) == o0);
    lemma_ui_run1_at(ui_run1_of(s), d, o0);
    let o1 = o0 + b0.len();
    assert(ui_pos1(d, x, be) == o1);
    lemma_hotkeys_config_at(s.hotkeys_config, d, o1);
    let o2 = o1 + b1.len();
    assert(ui_pos2(d, x, be) == o2);
    lemma_text_at(s.strat_editor_chapters@, d, o2);
    let o3 = o2 + b2.len();
    assert(ui_pos3(d, x, be) == o3);
    lemma_markets_table_config_at(s.markets_table_config, d, o3);
    let o4 = o3 + b3.len();
    assert(ui_pos4(d, x, be) == o4);
    lemma_ui_run2_at(ui_run2_of(s), d, o4);
    assert(ui_pos5(d, x, be) == o4 + b4.len());
}

/// Whether a ui block body at `x`, ending at `be`, can be read: version `3`
/// and every field group within the data.
pub open spec fn ui_ok(d: Seq<u8>, x: int, be: int) -> bool {
    &&& x + 1 <= d.len()
    &&& d[x] == 3
    &&& ui_ok1(d, x, be)
}

/// Whether `s` is the ui block body at `x`, with the rest of the block
/// up to `be` kept.
pub open spec fn ui_decoded(d: Seq<u8>, x: int, be: int, s: UiSection) -> bool {
    &&& ui_got1(d, x, be, s)
    &&& s.unknown_tail@ == tail_of(d, ui_pos5(d, x, be), be)
}

/// Read the ui block body that ends at `block_end`.
#[verifier::spinoff_prover]
#[verifier::rlimit(50)]
pub fn parse_ui(r: &mut ConfigReader, block_end: usize) -> (res: Result<UiSection, SharedConfigError>)
    requires
        block_end <= old(r).bytes().len(),
    ensures
        ui_ok(old(r).bytes(), old(r).at(), block_end as int) ==> (res matches Ok(s) && ui_decoded(
            old(r).bytes(),
            old(r).at(),
            block_end as int,
            s,
        )),
        !ui_ok(old(r).bytes(), old(r).at(), block_end as int) ==> res is Err,
{
    let ghost x: int = r.at();
    let ghost d = r.bytes();
    let be = block_end;
    let ver = r.read_u8()?;
    if ver != 3 {
        return Err(SharedConfigError::new("wrong shared ui version"));
    }
    let (v0, v1, v2, v3, v4) = read_ui_part1(r, be, Ghost(x))?;
    let unknown_tail = r.read_tail(be);
    let s = UiSection {
        hide_demo_button: v0.hide_demo_button,
        confirm_close: v0.confirm_close,
        new_markets_on_top: v0.new_markets_on_top,
        coins_sort_order: v0.coins_sort_order,
        hotkeys_config: v1,
        strat_editor_chapters: v2,
        markets_table_config: v3,
        main_button_index_1: v4.main_button_index_1,
        strat_expanded_state: v4.strat_expanded_state,
        unknown_tail,
    };
    proof {
        assert(ui_got1(d, x, be as int, s)) by {
            reveal(ui_got1);
        }
    }
    Ok(s)
}

/// Bytes of a ui block body: version `3`, the field groups and the kept tail.
pub open spec fn ui_bytes(s: UiSection) -> Seq<u8> {
    seq![3u8] + ui_bytes1(s) + s.unknown_tail@
}

/// Whether a ui section can be written: every string within its limit.
pub open spec fn ui_fits(s: UiSection) -> bool {
    ui_fits1(s)
}

/// Write a ui block body.
pub fn write_ui(w: &mut ConfigWriter, s: &UiSection)
    requires
        old(w).wf(),
    ensures
        final(w).wf(),
        final(w).wrote_all(old(w), ui_fits(*s), ui_bytes(*s)),
{
    let ghost w0 = *w;
    w.write_u8(3);
    proof { lemma_wrote_all_of_wrote(w0, *w, seq![3u8]); }
    let ghost wb = *w;
    write_ui_part1(w, s);
    proof { lemma_wrote_all_then(w0, wb, *w, true, seq![3u8], ui_fits1(*s), ui_bytes1(*s)); }
    let ghost wb = *w;
    w.write_bytes(s.unknown_tail.as_slice());
    proof {
        lemma_wrote_all_of_wrote(wb, *w, s.unknown_tail@);
        lemma_wrote_all_then(w0, wb, *w, ui_fits1(*s), seq![3u8] + ui_bytes1(*s), true, s.unknown_tail@);
    }
}

/// Reading back a written ui block gives the same section, when every
/// string fits its limit.
#[verifier::spinoff_prover]
#[verifier::rlimit(50)]
pub proof fn lemma_ui_roundtrip(s: UiSection)
    requires
        ui_fits(s),
    ensures
        ui_ok(ui_bytes(s), 0, ui_bytes(s).len() as int),
        ui_decoded(ui_bytes(s), 0, ui_bytes(s).len() as int, s),
{
    let d = ui_bytes(s);
    let be = d.len() as int;
    let q0 = seq![3u8];
    let q1 = q0 + ui_bytes1(s);
    assert(d == q1 + s.unknown_tail@);
    assert(d.subrange(0, d.len() as int) =~= d);
    lemma_parts_at(d, 0, q1, s.unknown_tail@);
    lemma_parts_at(d, 0, q0, ui_bytes1(s));
    assert(d[0] == q0[0]);
    lemma_ui_part1(s, d, 0, be);
    let q = q1.len() as int;
    if q >= d.len() {
        assert(s.unknown_tail@ =~= Seq::<u8>::empty());
    } else {
        assert(d.subrange(q, d.len() as int) == s.unknown_tail@);
    }
}

} // verus!
