//! The persisted form of the ledger: reading a ledger out of its document,
//! printing it back, and the teardown of a container from document to
//! document.

use crate::document::{
    contents, integers_at, strings_view, text_at, texts_at, toml_content, toml_document,
    toml_empty_table, toml_from_integer, toml_from_items, toml_from_text, toml_insert, toml_parse,
    toml_rendering, toml_to_string, tree_integers_at, tree_text_at, tree_texts_at, TomlTree,
};
use crate::error::EngineError;
use crate::ledger::{views, ContainerRecord, Ledger, LedgerView, RecordView};
use crate::pool::{give_back, returnable, with_ids, Pool};
use crate::segment::{is_normal_form_of, lemma_normalized_unique, normalize, Segment};
use crate::text::{
    chars_of, dec_chars, dec_text, extend_chars, extend_str, hex_chars, hex_literal, hex_value,
    id_value, join, joined, parse_hex_chars, parse_id_chars, pieces_view, same_chars, split,
    split_on, string_of,
};
use vstd::prelude::*;

verus! {

/// What a segment is written as: its two ends as hexadecimal literals.
pub open spec fn segment_text(seg: Segment) -> Seq<char> {
    hex_literal(seg.start as nat) + ", "@ + hex_literal(seg.end as nat)
}

/// The segment that a text denotes: two hexadecimal addresses with a comma
/// and a blank between them.
pub open spec fn segment_of(text: Seq<char>) -> Option<Segment> {
    let parts = split_on(text, ", "@);
    if parts.len() == 2 && hex_value(parts[0]) is Some && hex_value(parts[1]) is Some {
        Some(Segment { start: hex_value(parts[0])->0, end: hex_value(parts[1])->0 })
    } else {
        None
    }
}

/// What a list of identifiers is written as in a record: the numbers with
/// a comma and a blank between them, or `none` for the empty list.
pub open spec fn ids_text(ids: Seq<i8>) -> Seq<char> {
    if ids.len() == 0 {
        "none"@
    } else {
        joined(ids.map_values(|i: i8| dec_text(i as int)), ", "@)
    }
}

/// The identifiers that a record text denotes.
pub open spec fn ids_of(text: Seq<char>) -> Option<Seq<i8>> {
    if text == "none"@ {
        Some(Seq::<i8>::empty())
    } else {
        let parts = split_on(text, ", "@);
        if forall|i: int| 0 <= i < parts.len() ==> (#[trigger] id_value(parts[i])) is Some {
            Some(parts.map_values(|p: Seq<char>| id_value(p)->0))
        } else {
            None
        }
    }
}

/// The slot that a record text denotes: `none`, or one identifier.
pub open spec fn slot_of_text(text: Seq<char>) -> Option<Option<i8>> {
    if text == "none"@ {
        Some(None)
    } else {
        match id_value(text) {
            Some(b) => Some(Some(b)),
            None => None,
        }
    }
}

/// What a slot is written as in a record.
pub open spec fn slot_text(bdf: Option<i8>) -> Seq<char> {
    match bdf {
        Some(b) => dec_text(b as int),
        None => "none"@,
    }
}

/// The segments that a list of texts denotes, if every text denotes one.
pub open spec fn segments_of(texts: Seq<Seq<char>>) -> Option<Seq<Segment>> {
    if forall|i: int| 0 <= i < texts.len() ==> (#[trigger] segment_of(texts[i])) is Some {
        Some(texts.map_values(|t: Seq<char>| segment_of(t)->0))
    } else {
        None
    }
}

/// The identifiers that a list of integers denotes, if each is small enough
/// to be one.
pub open spec fn small_ids(ints: Seq<i64>) -> Option<Seq<i8>> {
    if forall|i: int| 0 <= i < ints.len() ==> -128 <= (#[trigger] ints[i]) <= 127 {
        Some(ints.map_values(|n: i64| n as i8))
    } else {
        None
    }
}

/// The record of the container `id` in a ledger document.
pub open spec fn record_of(t: TomlTree, id: Seq<char>) -> Option<RecordView> {
    let memory = match tree_text_at(t, id, "memory"@) {
        Some(s) => segment_of(s),
        None => None,
    };
    let rcpus = match tree_text_at(t, id, "rcpus"@) {
        Some(s) => ids_of(s),
        None => None,
    };
    let fpga = match tree_text_at(t, id, "fpga_regions"@) {
        Some(s) => ids_of(s),
        None => None,
    };
    let bdf = match tree_text_at(t, id, "pci_bdf"@) {
        Some(s) => slot_of_text(s),
        None => None,
    };
    if memory is Some && rcpus is Some && fpga is Some && bdf is Some {
        Some(
            RecordView {
                id: id,
                memory: memory->0,
                rcpus: rcpus->0,
                fpga_regions: fpga->0,
                bdf: bdf->0,
            },
        )
    } else {
        None
    }
}

/// The records of the containers `ids` in a ledger document, if each has
/// one.
pub open spec fn records_of(t: TomlTree, ids: Seq<Seq<char>>) -> Option<Seq<RecordView>> {
    if forall|i: int| 0 <= i < ids.len() ==> (#[trigger] record_of(t, ids[i])) is Some {
        Some(ids.map_values(|id: Seq<char>| record_of(t, id)->0))
    } else {
        None
    }
}

/// What a ledger document lists, before any of it is checked.
pub struct LedgerDoc {
    pub segments: Seq<Segment>,
    pub rcpus: Seq<i8>,
    pub fpga_regions: Seq<i8>,
    pub bdf: Seq<i8>,
    pub containers: Seq<RecordView>,
}

/// What a document lists, if it has every section of a ledger in the form
/// of a ledger.
pub open spec fn ledger_doc(t: TomlTree) -> Option<LedgerDoc> {
    let segments = match tree_texts_at(t, "free_segments"@, "segments"@) {
        Some(texts) => segments_of(texts),
        None => None,
    };
    let bdf = match tree_integers_at(t, "free_pci_devices_bdf"@, "bdf"@) {
        Some(ints) => small_ids(ints),
        None => None,
    };
    let rcpus = match tree_integers_at(t, "free_rcpus"@, "ids"@) {
        Some(ints) => small_ids(ints),
        None => None,
    };
    let fpga = match tree_integers_at(t, "free_fpga_regions"@, "ids"@) {
        Some(ints) => small_ids(ints),
        None => None,
    };
    let containers = match tree_texts_at(t, "containerid"@, "ids"@) {
        Some(ids) => records_of(t, ids),
        None => None,
    };
    if segments is Some && bdf is Some && rcpus is Some && fpga is Some && containers is Some {
        Some(
            LedgerDoc {
                segments: segments->0,
                rcpus: rcpus->0,
                fpga_regions: fpga->0,
                bdf: bdf->0,
                containers: containers->0,
            },
        )
    } else {
        None
    }
}

/// No segment of the list is inverted.
pub open spec fn upright(segs: Seq<Segment>) -> bool {
    forall|i: int| 0 <= i < segs.len() ==> (#[trigger] segs[i]).start <= segs[i].end
}

/// The document `t` reads as the ledger `l`. The order in which the
/// document lists free segments and free identifiers carries no meaning: the
/// ledger holds the segments in canonical form and the identifiers
/// ascending. A document that lists an inverted segment, or an identifier
/// twice or out of its pool's range, or whose ledger would not be
/// consistent, reads as nothing.
pub open spec fn reads_as(t: TomlTree, l: LedgerView) -> bool {
    match ledger_doc(t) {
        Some(d) => {
            &&& upright(d.segments)
            &&& is_normal_form_of(l.free_segments, d.segments)
            &&& returnable(Pool::Rcpu, Seq::<i8>::empty(), d.rcpus)
            &&& l.free_rcpus == with_ids(Seq::<i8>::empty(), d.rcpus)
            &&& returnable(Pool::FpgaRegion, Seq::<i8>::empty(), d.fpga_regions)
            &&& l.free_fpga_regions == with_ids(Seq::<i8>::empty(), d.fpga_regions)
            &&& returnable(Pool::Bdf, Seq::<i8>::empty(), d.bdf)
            &&& l.free_bdf == with_ids(Seq::<i8>::empty(), d.bdf)
            &&& l.containers == d.containers
            &&& l.wf()
        },
        None => false,
    }
}

/// A document reads as at most one ledger.
pub proof fn lemma_reads_as_one(t: TomlTree, a: LedgerView, b: LedgerView)
    requires
        reads_as(t, a),
        reads_as(t, b),
    ensures
        a == b,
{
    lemma_normalized_unique(a.free_segments, b.free_segments);
}

/// Reads a segment such as `0x70000000, 0x78000000`.
pub fn parse_segment(text: &str) -> (r: Option<Segment>)
    ensures
        r == segment_of(text@),
{
    let chars = chars_of(text);
    let parts = split(&chars, &chars_of(", "));
    if parts.len() != 2 {
        return None;
    }
    assert(pieces_view(parts@)[0] == parts@[0]@);
    assert(pieces_view(parts@)[1] == parts@[1]@);
    match parse_hex_chars(&parts[0]) {
        Some(a) => match parse_hex_chars(&parts[1]) {
            Some(b) => Some(Segment { start: a, end: b }),
            None => None,
        },
        None => None,
    }
}

/// Reads the identifiers of a record, such as `0, 1` or `none`.
pub fn parse_ids(text: &str) -> (r: Option<Vec<i8>>)
    ensures
        match r {
            Some(ids) => ids_of(text@) == Some(ids@),
            None => ids_of(text@) is None,
        },
{
    let chars = chars_of(text);
    if same_chars(&chars, &chars_of("none")) {
        return Some(Vec::new());
    }
    let parts = split(&chars, &chars_of(", "));
    let ghost pieces = split_on(text@, ", "@);
    let mut out: Vec<i8> = Vec::new();
    let mut i: usize = 0;
    while i < parts.len()
        invariant
            i <= parts.len(),
            pieces == pieces_view(parts@),
            pieces == split_on(text@, ", "@),
            text@ != "none"@,
            out.len() == i,
            forall|k: int| 0 <= k < i ==> (#[trigger] id_value(pieces[k])) == Some(out@[k]),
        decreases parts.len() - i,
    {
        assert(pieces[i as int] == parts@[i as int]@);
        match parse_id_chars(&parts[i]) {
            Some(v) => {
                out.push(v);
            },
            None => {
                return None;
            },
        }
        i += 1;
    }
    assert(pieces.map_values(|p: Seq<char>| id_value(p)->0) =~= out@);
    Some(out)
}

/// Reads the slot of a record: one identifier or `none`.
pub fn parse_slot(text: &str) -> (r: Option<Option<i8>>)
    ensures
        r == slot_of_text(text@),
{
    let chars = chars_of(text);
    if same_chars(&chars, &chars_of("none")) {
        return Some(None);
    }
    match parse_id_chars(&chars) {
        Some(b) => Some(Some(b)),
        None => None,
    }
}

/// Reads the segments of a list of texts.
pub fn parse_segments(texts: &Vec<String>) -> (r: Option<Vec<Segment>>)
    ensures
        match r {
            Some(segs) => segments_of(strings_view(texts@)) == Some(segs@),
            None => segments_of(strings_view(texts@)) is None,
        },
{
    let ghost views = strings_view(texts@);
    let mut out: Vec<Segment> = Vec::new();
    let mut i: usize = 0;
    while i < texts.len()
        invariant
            i <= texts.len(),
            views == strings_view(texts@),
            out.len() == i,
            forall|k: int| 0 <= k < i ==> (#[trigger] segment_of(views[k])) == Some(out@[k]),
        decreases texts.len() - i,
    {
        assert(views[i as int] == texts@[i as int]@);
        match parse_segment(texts[i].as_str()) {
            Some(seg) => {
                out.push(seg);
            },
            None => {
                return None;
            },
        }
        i += 1;
    }
    assert(views.map_values(|t: Seq<char>| segment_of(t)->0) =~= out@);
    Some(out)
}

/// The identifiers that a list of integers denotes.
pub fn to_small_ids(ints: &Vec<i64>) -> (r: Option<Vec<i8>>)
    ensures
        match r {
            Some(ids) => small_ids(ints@) == Some(ids@),
            None => small_ids(ints@) is None,
        },
{
    let mut out: Vec<i8> = Vec::new();
    let mut i: usize = 0;
    while i < ints.len()
        invariant
            i <= ints.len(),
            out.len() == i,
            forall|k: int|
                0 <= k < i ==> -128 <= (#[trigger] ints@[k]) <= 127 && out@[k] == ints@[k] as i8,
        decreases ints.len() - i,
    {
        if ints[i] < -128 || ints[i] > 127 {
            return None;
        }
        out.push(ints[i] as i8);
        i += 1;
    }
    assert(ints@.map_values(|n: i64| n as i8) =~= out@);
    Some(out)
}

/// Reads the record of the container `id` out of a ledger document.
pub fn read_record(doc: &toml::Value, id: &str) -> (r: Option<ContainerRecord>)
    ensures
        match r {
            Some(rec) => record_of(toml_content(*doc), id@) == Some(rec@),
            None => record_of(toml_content(*doc), id@) is None,
        },
{
    let memory = match text_at(doc, id, "memory") {
        Some(s) => match parse_segment(s.as_str()) {
            Some(seg) => seg,
            None => {
                return None;
            },
        },
        None => {
            return None;
        },
    };
    let rcpus = match text_at(doc, id, "rcpus") {
        Some(s) => match parse_ids(s.as_str()) {
            Some(ids) => ids,
            None => {
                return None;
            },
        },
        None => {
            return None;
        },
    };
    let fpga = match text_at(doc, id, "fpga_regions") {
        Some(s) => match parse_ids(s.as_str()) {
            Some(ids) => ids,
            None => {
                return None;
            },
        },
        None => {
            return None;
        },
    };
    let bdf = match text_at(doc, id, "pci_bdf") {
        Some(s) => match parse_slot(s.as_str()) {
            Some(b) => b,
            None => {
                return None;
            },
        },
        None => {
            return None;
        },
    };
    Some(
        ContainerRecord {
            id: string_of(&chars_of(id)),
            memory: memory,
            rcpus: rcpus,
            fpga_regions: fpga,
            bdf: bdf,
        },
    )
}

/// Reads the free identifiers under `key` in the table under `section`.
fn read_pool(doc: &toml::Value, section: &str, key: &str) -> (r: Option<Vec<i8>>)
    ensures
        match r {
            Some(ids) => (match tree_integers_at(toml_content(*doc), section@, key@) {
                Some(ints) => small_ids(ints),
                None => None,
            }) == Some(ids@),
            None => (match tree_integers_at(toml_content(*doc), section@, key@) {
                Some(ints) => small_ids(ints),
                None => None,
            }) is None,
        },
{
    match integers_at(doc, section, key) {
        Some(ints) => to_small_ids(&ints),
        None => None,
    }
}

/// Reads what a ledger document lists.
fn read_lists(doc: &toml::Value) -> (r: Option<
    (Vec<Segment>, Vec<i8>, Vec<i8>, Vec<i8>, Vec<ContainerRecord>),
>)
    ensures
        match r {
            Some((segments, bdf, rcpus, fpga, containers)) => ledger_doc(toml_content(*doc))
                == Some(
                LedgerDoc {
                    segments: segments@,
                    rcpus: rcpus@,
                    fpga_regions: fpga@,
                    bdf: bdf@,
                    containers: views(containers@),
                },
            ),
            None => ledger_doc(toml_content(*doc)) is None,
        },
{
    let segments = match texts_at(doc, "free_segments", "segments") {
        Some(texts) => match parse_segments(&texts) {
            Some(segs) => segs,
            None => {
                return None;
            },
        },
        None => {
            return None;
        },
    };
    let bdf = match read_pool(doc, "free_pci_devices_bdf", "bdf") {
        Some(ids) => ids,
        None => {
            return None;
        },
    };
    let rcpus = match read_pool(doc, "free_rcpus", "ids") {
        Some(ids) => ids,
        None => {
            return None;
        },
    };
    let fpga = match read_pool(doc, "free_fpga_regions", "ids") {
        Some(ids) => ids,
        None => {
            return None;
        },
    };
    let names = match texts_at(doc, "containerid", "ids") {
        Some(names) => names,
        None => {
            return None;
        },
    };
    let ghost t = toml_content(*doc);
    let ghost ids = strings_view(names@);
    let mut containers: Vec<ContainerRecord> = Vec::new();
    let mut i: usize = 0;
    while i < names.len()
        invariant
            i <= names.len(),
            t == toml_content(*doc),
            ids == strings_view(names@),
            tree_texts_at(t, "containerid"@, "ids"@) == Some(ids),
            (match tree_texts_at(t, "free_segments"@, "segments"@) {
                Some(texts) => segments_of(texts),
                None => None,
            }) == Some(segments@),
            (match tree_integers_at(t, "free_pci_devices_bdf"@, "bdf"@) {
                Some(ints) => small_ids(ints),
                None => None,
            }) == Some(bdf@),
            (match tree_integers_at(t, "free_rcpus"@, "ids"@) {
                Some(ints) => small_ids(ints),
                None => None,
            }) == Some(rcpus@),
            (match tree_integers_at(t, "free_fpga_regions"@, "ids"@) {
                Some(ints) => small_ids(ints),
                None => None,
            }) == Some(fpga@),
            containers.len() == i,
            forall|k: int| 0 <= k < i ==> (#[trigger] record_of(t, ids[k])) == Some(containers@[k]@),
        decreases names.len() - i,
    {
        assert(ids[i as int] == names@[i as int]@);
        match read_record(doc, names[i].as_str()) {
            Some(rec) => {
                containers.push(rec);
            },
            None => {
                return None;
            },
        }
        i += 1;
    }
    assert(ids.map_values(|id: Seq<char>| record_of(t, id)->0) =~= views(containers@));
    Some((segments, bdf, rcpus, fpga, containers))
}

/// Whether no segment of the list is inverted.
fn all_upright(segs: &Vec<Segment>) -> (r: bool)
    ensures
        r == upright(segs@),
{
    let mut i: usize = 0;
    while i < segs.len()
        invariant
            i <= segs.len(),
            forall|k: int| 0 <= k < i ==> (#[trigger] segs@[k]).start <= segs@[k].end,
        decreases segs.len() - i,
    {
        if segs[i].start > segs[i].end {
            return false;
        }
        i += 1;
    }
    true
}

/// Reads a ledger out of a parsed document, failing closed: a document that
/// lacks a section, or holds anything that is not what a ledger holds there,
/// gives no ledger at all.
pub fn ledger_of_document(doc: &toml::Value) -> (r: Result<Ledger, EngineError>)
    ensures
        match r {
            Ok(l) => reads_as(toml_content(*doc), l@) && l.wf(),
            Err(e) => e == EngineError::LedgerCorrupt && forall|l: LedgerView|
                !reads_as(toml_content(*doc), l),
        },
{
    let (segments, bdf, rcpus, fpga, containers) = match read_lists(doc) {
        Some(lists) => lists,
        None => {
            return Err(EngineError::LedgerCorrupt);
        },
    };
    if !all_upright(&segments) {
        return Err(EngineError::LedgerCorrupt);
    }
    let mut l = Ledger::new();
    assert(l@.free_rcpus =~= Seq::<i8>::empty());
    assert(l@.free_fpga_regions =~= Seq::<i8>::empty());
    assert(l@.free_bdf =~= Seq::<i8>::empty());
    l.free_segments = normalize(&segments);
    let a = give_back(Pool::Rcpu, &mut l.free_rcpus, &rcpus);
    let b = give_back(Pool::FpgaRegion, &mut l.free_fpga_regions, &fpga);
    let c = give_back(Pool::Bdf, &mut l.free_bdf, &bdf);
    if !(a && b && c) {
        return Err(EngineError::LedgerCorrupt);
    }
    l.containers = containers;
    if !l.is_wf() {
        proof {
            assert forall|other: LedgerView| !reads_as(toml_content(*doc), other) by {
                if reads_as(toml_content(*doc), other) {
                    lemma_normalized_unique(other.free_segments, l@.free_segments);
                    assert(other == l@);
                }
            }
        }
        return Err(EngineError::LedgerCorrupt);
    }
    Ok(l)
}

/// Loads the ledger from the text of its document.
pub fn retrieve_state(text: &str) -> (r: Result<Ledger, EngineError>)
    ensures
        match r {
            Ok(l) => toml_document(text@) matches Some(t) && reads_as(t, l@) && l.wf(),
            Err(e) => e == EngineError::LedgerCorrupt && (toml_document(text@) matches Some(t)
                ==> forall|l: LedgerView| !reads_as(t, l)),
        },
{
    match toml_parse(text) {
        Ok(doc) => ledger_of_document(&doc),
        Err(_) => Err(EngineError::LedgerCorrupt),
    }
}


/// An array of strings.
pub open spec fn text_array(texts: Seq<Seq<char>>) -> TomlTree {
    TomlTree::Array(texts.map_values(|s: Seq<char>| TomlTree::Text(s)))
}

/// An array of integers.
pub open spec fn integer_array(ids: Seq<i8>) -> TomlTree {
    TomlTree::Array(ids.map_values(|i: i8| TomlTree::Integer(i as i64)))
}

/// A table with one key.
pub open spec fn section(key: Seq<char>, value: TomlTree) -> TomlTree {
    TomlTree::Table(Map::<Seq<char>, TomlTree>::empty().insert(key, value))
}

/// The table that a record is written as.
pub open spec fn record_tree(rec: RecordView) -> TomlTree {
    TomlTree::Table(
        Map::<Seq<char>, TomlTree>::empty().insert(
            "memory"@,
            TomlTree::Text(segment_text(rec.memory)),
        ).insert("rcpus"@, TomlTree::Text(ids_text(rec.rcpus))).insert(
            "fpga_regions"@,
            TomlTree::Text(ids_text(rec.fpga_regions)),
        ).insert("pci_bdf"@, TomlTree::Text(slot_text(rec.bdf))),
    )
}

/// The sections of the free lists and of the list of active containers.
pub open spec fn free_sections(l: LedgerView) -> Map<Seq<char>, TomlTree> {
    Map::<Seq<char>, TomlTree>::empty().insert(
        "containerid"@,
        section("ids"@, text_array(l.containers.map_values(|r: RecordView| r.id))),
    ).insert(
        "free_segments"@,
        section(
            "segments"@,
            text_array(l.free_segments.map_values(|s: Segment| segment_text(s))),
        ),
    ).insert("free_pci_devices_bdf"@, section("bdf"@, integer_array(l.free_bdf))).insert(
        "free_rcpus"@,
        section("ids"@, integer_array(l.free_rcpus)),
    ).insert("free_fpga_regions"@, section("ids"@, integer_array(l.free_fpga_regions)))
}

/// The sections `m` and one more for each record, under the container's
/// name.
pub open spec fn with_records(m: Map<Seq<char>, TomlTree>, records: Seq<RecordView>) -> Map<
    Seq<char>,
    TomlTree,
>
    decreases records.len(),
{
    if records.len() == 0 {
        m
    } else {
        with_records(m, records.drop_last()).insert(
            records.last().id,
            record_tree(records.last()),
        )
    }
}

/// The document that a ledger is written as.
pub open spec fn ledger_tree(l: LedgerView) -> TomlTree {
    TomlTree::Table(with_records(free_sections(l), l.containers))
}

fn text_value(chars: &Vec<char>) -> (v: toml::Value)
    ensures
        toml_content(v) == TomlTree::Text(chars@),
{
    let s = string_of(chars);
    toml_from_text(s.as_str())
}

/// Writes a segment as its two ends.
pub fn segment_chars(seg: Segment) -> (r: Vec<char>)
    ensures
        r@ == segment_text(seg),
{
    let mut out = hex_chars(seg.start);
    extend_str(&mut out, ", ");
    let end = hex_chars(seg.end);
    extend_chars(&mut out, &end);
    out
}

/// Writes the identifiers of a record.
pub fn ids_chars(ids: &Vec<i8>) -> (r: Vec<char>)
    ensures
        r@ == ids_text(ids@),
{
    if ids.len() == 0 {
        return chars_of("none");
    }
    let mut parts: Vec<Vec<char>> = Vec::new();
    let mut i: usize = 0;
    while i < ids.len()
        invariant
            i <= ids.len(),
            parts.len() == i,
            forall|k: int| 0 <= k < i ==> (#[trigger] parts@[k])@ == dec_text(ids@[k] as int),
        decreases ids.len() - i,
    {
        parts.push(dec_chars(ids[i] as i64));
        i += 1;
    }
    assert(pieces_view(parts@) =~= ids@.map_values(|i: i8| dec_text(i as int)));
    join(&parts, &chars_of(", "))
}

/// Writes the slot of a record.
pub fn slot_chars(bdf: Option<i8>) -> (r: Vec<char>)
    ensures
        r@ == slot_text(bdf),
{
    match bdf {
        Some(b) => dec_chars(b as i64),
        None => chars_of("none"),
    }
}

fn make_section(key: &str, value: toml::Value) -> (v: toml::Value)
    ensures
        toml_content(v) == section(key@, toml_content(value)),
{
    let mut t = toml_empty_table();
    toml_insert(&mut t, key, value);
    t
}

fn make_integer_array(ids: &Vec<i8>) -> (v: toml::Value)
    ensures
        toml_content(v) == integer_array(ids@),
{
    let mut items: Vec<toml::Value> = Vec::new();
    let mut i: usize = 0;
    while i < ids.len()
        invariant
            i <= ids.len(),
            items.len() == i,
            forall|k: int|
                0 <= k < i ==> toml_content(#[trigger] items@[k]) == TomlTree::Integer(
                    ids@[k] as i64,
                ),
        decreases ids.len() - i,
    {
        items.push(toml_from_integer(ids[i] as i64));
        i += 1;
    }
    assert(contents(items@) =~= ids@.map_values(|i: i8| TomlTree::Integer(i as i64)));
    toml_from_items(items)
}

fn record_value(rec: &ContainerRecord) -> (v: toml::Value)
    ensures
        toml_content(v) == record_tree(rec@),
{
    let mut t = toml_empty_table();
    toml_insert(&mut t, "memory", text_value(&segment_chars(rec.memory)));
    toml_insert(&mut t, "rcpus", text_value(&ids_chars(&rec.rcpus)));
    toml_insert(&mut t, "fpga_regions", text_value(&ids_chars(&rec.fpga_regions)));
    toml_insert(&mut t, "pci_bdf", text_value(&slot_chars(rec.bdf)));
    t
}

/// Builds the document of a ledger.
pub fn document_of_ledger(l: &Ledger) -> (v: toml::Value)
    ensures
        toml_content(v) == ledger_tree(l@),
{
    let mut names: Vec<toml::Value> = Vec::new();
    let mut c: usize = 0;
    while c < l.containers.len()
        invariant
            c <= l.containers.len(),
            names.len() == c,
            forall|k: int|
                0 <= k < c ==> toml_content(#[trigger] names@[k]) == TomlTree::Text(
                    l.containers@[k].id@,
                ),
        decreases l.containers.len() - c,
    {
        names.push(toml_from_text(l.containers[c].id.as_str()));
        c += 1;
    }
    assert(contents(names@) =~= l@.containers.map_values(|r: RecordView| r.id).map_values(
        |s: Seq<char>| TomlTree::Text(s),
    ));
    let mut segs: Vec<toml::Value> = Vec::new();
    let mut i: usize = 0;
    while i < l.free_segments.len()
        invariant
            i <= l.free_segments.len(),
            segs.len() == i,
            forall|k: int|
                0 <= k < i ==> toml_content(#[trigger] segs@[k]) == TomlTree::Text(
                    segment_text(l.free_segments@[k]),
                ),
        decreases l.free_segments.len() - i,
    {
        segs.push(text_value(&segment_chars(l.free_segments[i])));
        i += 1;
    }
    assert(contents(segs@) =~= l@.free_segments.map_values(|s: Segment| segment_text(s)).map_values(
        |s: Seq<char>| TomlTree::Text(s),
    ));
    let mut root = toml_empty_table();
    toml_insert(&mut root, "containerid", make_section("ids", toml_from_items(names)));
    toml_insert(&mut root, "free_segments", make_section("segments", toml_from_items(segs)));
    toml_insert(
        &mut root,
        "free_pci_devices_bdf",
        make_section("bdf", make_integer_array(&l.free_bdf)),
    );
    toml_insert(&mut root, "free_rcpus", make_section("ids", make_integer_array(&l.free_rcpus)));
    toml_insert(
        &mut root,
        "free_fpga_regions",
        make_section("ids", make_integer_array(&l.free_fpga_regions)),
    );
    assert(toml_content(root) == TomlTree::Table(free_sections(l@)));
    let mut k: usize = 0;
    assert(l@.containers.take(0) =~= Seq::<RecordView>::empty());
    while k < l.containers.len()
        invariant
            k <= l.containers.len(),
            toml_content(root) == TomlTree::Table(
                with_records(free_sections(l@), l@.containers.take(k as int)),
            ),
        decreases l.containers.len() - k,
    {
        proof {
            assert(l@.containers.take(k + 1).drop_last() =~= l@.containers.take(k as int));
            assert(l@.containers.take(k + 1).last() == l.containers@[k as int]@);
        }
        toml_insert(&mut root, l.containers[k].id.as_str(), record_value(&l.containers[k]));
        k += 1;
    }
    assert(l@.containers.take(l.containers.len() as int) =~= l@.containers);
    root
}

/// Prints the ledger as the document to persist.
pub fn save_state(l: &Ledger) -> (r: Result<String, EngineError>)
    ensures
        match r {
            Ok(s) => toml_rendering(ledger_tree(l@)) == Some(s@),
            Err(e) => e == EngineError::LedgerIOError && toml_rendering(ledger_tree(l@)) is None,
        },
{
    let doc = document_of_ledger(l);
    match toml_to_string(&doc) {
        Ok(s) => Ok(s),
        Err(_) => Err(EngineError::LedgerIOError),
    }
}

/// The name under which a container is known: the first 24 characters of
/// the identifier it was given.
pub open spec fn container_name(raw: Seq<char>) -> Seq<char> {
    if raw.len() <= 24 {
        raw
    } else {
        raw.take(24)
    }
}

/// The name under which a container is known.
pub fn container_id(raw: &str) -> (r: String)
    ensures
        r@ == container_name(raw@),
{
    let chars = chars_of(raw);
    if chars.len() <= 24 {
        string_of(&chars)
    } else {
        string_of(&crate::text::slice_chars(&chars, 0, 24))
    }
}

/// Tears a container down, from ledger document to ledger document: the
/// record of the container is forgotten, what it held is free again, and the
/// freed memory is coalesced with the free segments around it.
pub fn destroy_update_state(state: &str, containerid: &str) -> (r: Result<String, EngineError>)
    ensures
        match r {
            Ok(text) => exists|pre: LedgerView, post: LedgerView, i: int|
                {
                    &&& toml_document(state@) matches Some(t) && reads_as(t, pre)
                    &&& crate::ledger::released(pre, post, i)
                    &&& pre.containers[i].id == container_name(containerid@)
                    &&& post.wf()
                    &&& toml_rendering(ledger_tree(post)) == Some(text@)
                },
            Err(e) => match toml_document(state@) {
                Some(t) => {
                    ||| e == EngineError::LedgerCorrupt && forall|l: LedgerView| !reads_as(t, l)
                    ||| e == EngineError::UnknownContainer && exists|l: LedgerView|
                        reads_as(t, l) && !crate::ledger::named(
                            l.containers,
                            container_name(containerid@),
                        )
                    ||| e == EngineError::LedgerIOError && exists|pre: LedgerView, post: LedgerView, i: int|
                        {
                            &&& reads_as(t, pre)
                            &&& crate::ledger::released(pre, post, i)
                            &&& pre.containers[i].id == container_name(containerid@)
                            &&& toml_rendering(ledger_tree(post)) is None
                        }
                },
                None => e == EngineError::LedgerCorrupt,
            },
        },
{
    let mut l = match retrieve_state(state) {
        Ok(l) => l,
        Err(e) => {
            return Err(e);
        },
    };
    let ghost pre = l@;
    let name = container_id(containerid);
    match l.discharge(name.as_str()) {
        Ok(_) => {},
        Err(e) => {
            return Err(e);
        },
    }
    save_state(&l)
}

/// The auxiliary processor cores that the ledger document records for a
/// container, as the record writes them: numbers with commas between them,
/// or `none`.
pub fn get_rcpu_for_container(state: &str, containerid: &str) -> (r: Result<String, EngineError>)
    ensures
        match r {
            Ok(s) => toml_document(state@) matches Some(t) && tree_text_at(
                t,
                container_name(containerid@),
                "rcpus"@,
            ) == Some(s@),
            Err(e) => match toml_document(state@) {
                Some(t) => e == EngineError::UnknownContainer && tree_text_at(
                    t,
                    container_name(containerid@),
                    "rcpus"@,
                ) is None,
                None => e == EngineError::LedgerCorrupt,
            },
        },
{
    let doc = match toml_parse(state) {
        Ok(doc) => doc,
        Err(_) => {
            return Err(EngineError::LedgerCorrupt);
        },
    };
    let name = container_id(containerid);
    match text_at(&doc, name.as_str(), "rcpus") {
        Some(s) => Ok(s),
        None => Err(EngineError::UnknownContainer),
    }
}

} // verus!
