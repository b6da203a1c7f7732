//! Turning a backup into the writes that import it.

use vstd::prelude::*;
use crate::json::model::{Json, JsonNumber, JsonValue, array_view, group_json_view, object_view};
use crate::json::access::{clone_array, members_insert, obj_get};
use crate::json::bridge::{parse_json, reads_back, spec_json_pretty, spec_parse_json, PARSE_DEPTH};
use crate::storage::error::StorageError;
use crate::storage::manifest::document_bytes;
use crate::text::{str_eq, string_of};
use crate::storage::tree_model::{jsize, lemma_members_size_elem, lemma_seq_size_elem, seq_size};
use super::plan::{
    OutcomeView, StepView, array_at2, array_at3, import_fits, import_spec, import_v3_spec,
    import_v4_spec, import_v5_spec, is_v3_backup, major_version, v3_convert_list,
    v3_convert_members, v3_convert_node, v3_fits_list, v3_fits_members, v3_fits_node,
    v3_own_write, v4_entry_writes, v5_entry_writes,
};

verus! {

broadcast use group_json_view;

pub const ERR_PARSE: &'static str = "parse_error";

pub const ERR_INVALID_DATA: &'static str = "invalid_data";

pub const ERR_NEW_VERSION: &'static str = "new_version";

pub const ERR_INVALID_DATA_KEY: &'static str = "invalid_data_key";

pub const ERR_INVALID_V3_DATA: &'static str = "invalid_v3_data";

/// A storage write that an import asks for.
#[derive(Debug, PartialEq)]
pub enum ImportStep {
    WriteEntry { id: String, content: String },
    SaveTrashcan { items: Vec<JsonValue> },
    SaveManifest { root: Vec<JsonValue> },
    WriteHistory { items: Vec<JsonValue> },
}

impl View for ImportStep {
    type V = StepView;

    open spec fn view(&self) -> StepView {
        match self {
            ImportStep::WriteEntry { id, content } => StepView::WriteEntry(id@, content@),
            ImportStep::SaveTrashcan { items } => StepView::SaveTrashcan(array_view(items@)),
            ImportStep::SaveManifest { root } => StepView::SaveManifest(array_view(root@)),
            ImportStep::WriteHistory { items } => StepView::WriteHistory(array_view(items@)),
        }
    }
}

pub open spec fn steps_view(s: Seq<ImportStep>) -> Seq<StepView> {
    s.map_values(|x: ImportStep| x@)
}

/// What an import comes to: the writes to make, in order, or the code of
/// a soft failure for the renderer.
#[derive(Debug, PartialEq)]
pub enum ImportOutcome {
    Apply(Vec<ImportStep>),
    Refused(&'static str),
}

impl View for ImportOutcome {
    type V = OutcomeView;

    open spec fn view(&self) -> OutcomeView {
        match self {
            ImportOutcome::Apply(steps) => OutcomeView::Apply(steps_view(steps@)),
            ImportOutcome::Refused(code) => OutcomeView::Refused(code@),
        }
    }
}

fn push_step(steps: &mut Vec<ImportStep>, step: ImportStep)
    ensures
        steps_view(final(steps)@) == steps_view(old(steps)@).push(step@),
{
    steps.push(step);
    assert(steps_view(steps@) =~= steps_view(old(steps)@).push(step@));
}

fn refused(code: &'static str) -> (r: ImportOutcome)
    ensures
        r@ == OutcomeView::Refused(code@),
{
    ImportOutcome::Refused(code)
}

/// The bytes of the apply-history file for `items`, as a JSON array. The
/// caller writes them to `path` atomically. Printing always succeeds.
pub fn history_bytes(items: &Vec<JsonValue>, path: &str) -> (r: Result<Vec<u8>, StorageError>)
    ensures
        r is Ok,
        r matches Ok(b) ==> b@ == spec_json_pretty(Json::Array(array_view(items@))),
        r matches Ok(b) ==> (reads_back(Json::Array(array_view(items@)), PARSE_DEPTH as int)
            ==> spec_parse_json(b@) == Some(Json::Array(array_view(items@)))),
{
    let doc = JsonValue::Array(clone_array(items));
    document_bytes(&doc, path)
}

// ---- dispatch --------------------------------------------------------------------

/// Parse a backup and work out its import. `None` for a v3 backup with a
/// refresh interval too large to give in seconds.
pub fn import_backup_bytes(bytes: &[u8]) -> (r: Option<ImportOutcome>)
    ensures
        spec_parse_json(bytes@) is None ==> (r matches Some(o) && o@ == OutcomeView::Refused(
            "parse_error"@,
        )),
        spec_parse_json(bytes@) matches Some(d) ==> (if import_fits(d) {
            r matches Some(o) && o@ == import_spec(d)
        } else {
            r is None
        }),
{
    match parse_json(bytes) {
        None => Some(refused(ERR_PARSE)),
        Some(data) => {
            if import_fits_exec(&data) {
                Some(import_backup_value(&data))
            } else {
                None
            }
        },
    }
}

/// Work out the import of a parsed backup: v5 by its `format`, else v3 or
/// v4 by the major `version`; the refusal codes are `invalid_data`,
/// `new_version`, `invalid_data_key` and `invalid_v3_data`.
pub fn import_backup_value(data: &JsonValue) -> (r: ImportOutcome)
    requires
        import_fits(data@),
    ensures
        r@ == import_spec(data@),
{
    if !data.is_object() {
        return refused(ERR_INVALID_DATA);
    }
    if let Some(f) = data.get_str("format") {
        if str_eq(f, "switchhosts-backup") {
            return import_v5(data);
        }
    }
    let version = match data.get_array("version") {
        Some(v) => v,
        None => return refused(ERR_INVALID_DATA),
    };
    let major: u64 = if version.len() > 0 {
        match version[0].as_u64() {
            Some(u) => u,
            None => 0,
        }
    } else {
        0
    };
    assert(major == major_version(array_view(version@)));
    if major == 3 {
        import_v3(data)
    } else if major == 4 {
        import_v4(data)
    } else if major > 4 {
        refused(ERR_NEW_VERSION)
    } else {
        refused(ERR_INVALID_DATA)
    }
}


// ---- v5 --------------------------------------------------------------------------

/// `j.get(a).and_then(|x| x.get(b)).and_then(as_array)`, copied; empty
/// when absent.
fn copy_array_at2(j: &JsonValue, a: &str, b: &str) -> (r: Vec<JsonValue>)
    ensures
        array_view(r@) == array_at2(j@, a@, b@),
{
    match j.get(a) {
        Some(x) => match x.get_array(b) {
            Some(arr) => clone_array(arr),
            None => Vec::new(),
        },
        None => Vec::new(),
    }
}

fn copy_array_at3(j: &JsonValue, a: &str, b: &str, c: &str) -> (r: Vec<JsonValue>)
    ensures
        array_view(r@) == array_at3(j@, a@, b@, c@),
{
    match j.get(a) {
        Some(x) => copy_array_at2(x, b, c),
        None => Vec::new(),
    }
}

fn import_v5(data: &JsonValue) -> (r: ImportOutcome)
    ensures
        r@ == import_v5_spec(data@),
{
    let manifest_obj = match data.get("manifest") {
        Some(m) => m,
        None => return refused(ERR_INVALID_DATA),
    };
    if !manifest_obj.is_object() {
        return refused(ERR_INVALID_DATA);
    }
    let root = match manifest_obj.get_array("root") {
        Some(r) => clone_array(r),
        None => Vec::new(),
    };
    let mut steps: Vec<ImportStep> = Vec::new();
    if let Some(entries_value) = data.get("entries") {
        if let Some(es) = entries_value.as_object() {
            let ghost ov = object_view(es@);
            let mut i: usize = 0;
            assert(ov.skip(0) =~= ov);
            assert(steps_view(steps@) =~= Seq::<StepView>::empty());
            while i < es.len()
                invariant
                    i <= es@.len(),
                    ov == object_view(es@),
                    v5_entry_writes(ov) == steps_view(steps@) + v5_entry_writes(ov.skip(i as int)),
                decreases es@.len() - i,
            {
                let ghost rest = ov.skip(i as int);
                assert(rest[0] == ov[i as int]);
                assert(rest.drop_first() =~= ov.skip(i + 1));
                let ghost before = steps_view(steps@);
                let id = &es[i].0;
                if !str_eq(id.as_str(), "0") {
                    let content = match es[i].1.as_str() {
                        Some(c) => string_of(c),
                        None => String::new(),
                    };
                    push_step(&mut steps, ImportStep::WriteEntry { id: id.clone(), content });
                }
                assert(before + v5_entry_writes(rest) =~= steps_view(steps@) + v5_entry_writes(
                    ov.skip(i + 1),
                ));
                i = i + 1;
            }
            assert(ov.skip(i as int) =~= Seq::<(Seq<char>, Json)>::empty());
            assert(steps_view(steps@) =~= v5_entry_writes(ov));
        }
    }
    let ghost writes = steps_view(steps@);
    assert(writes == match crate::json::access::json_get(data@, "entries"@) {
        Some(Json::Object(es)) => v5_entry_writes(es),
        _ => Seq::<StepView>::empty(),
    });
    let items = copy_array_at2(data, "trashcan", "items");
    let ghost iv = array_view(items@);
    let ghost rv = array_view(root@);
    push_step(&mut steps, ImportStep::SaveTrashcan { items });
    push_step(&mut steps, ImportStep::SaveManifest { root });
    assert(steps_view(steps@) =~= writes + seq![StepView::SaveTrashcan(iv), StepView::SaveManifest(rv)]);
    ImportOutcome::Apply(steps)
}

// ---- v4 --------------------------------------------------------------------------

fn import_v4(data: &JsonValue) -> (r: ImportOutcome)
    ensures
        r@ == import_v4_spec(data@),
{
    let inner = match data.get("data") {
        Some(x) => x,
        None => return refused(ERR_INVALID_DATA_KEY),
    };
    if !inner.is_object() {
        return refused(ERR_INVALID_DATA_KEY);
    }
    let tree = copy_array_at2(inner, "list", "tree");
    let trashcan_items = copy_array_at2(inner, "list", "trashcan");
    let hosts_data = copy_array_at3(inner, "collection", "hosts", "data");
    let history_data = copy_array_at3(inner, "collection", "history", "data");
    let ghost hv = array_view(hosts_data@);
    let mut steps: Vec<ImportStep> = Vec::new();
    let mut i: usize = 0;
    assert(hv.skip(0) =~= hv);
    assert(steps_view(steps@) =~= Seq::<StepView>::empty());
    while i < hosts_data.len()
        invariant
            i <= hosts_data@.len(),
            hv == array_view(hosts_data@),
            v4_entry_writes(hv) == steps_view(steps@) + v4_entry_writes(hv.skip(i as int)),
        decreases hosts_data@.len() - i,
    {
        let ghost rest = hv.skip(i as int);
        assert(rest[0] == hv[i as int]);
        assert(rest.drop_first() =~= hv.skip(i + 1));
        let ghost before = steps_view(steps@);
        let entry = &hosts_data[i];
        match (entry.get_str("id"), entry.get_str("content")) {
            (Some(id), Some(content)) => {
                if !str_eq(id, "0") {
                    push_step(
                        &mut steps,
                        ImportStep::WriteEntry { id: string_of(id), content: string_of(content) },
                    );
                }
            },
            _ => {},
        }
        assert(before + v4_entry_writes(rest) =~= steps_view(steps@) + v4_entry_writes(
            hv.skip(i + 1),
        ));
        i = i + 1;
    }
    assert(hv.skip(i as int) =~= Seq::<Json>::empty());
    assert(steps_view(steps@) =~= v4_entry_writes(hv));
    let ghost writes = steps_view(steps@);
    let ghost tv = array_view(tree@);
    let ghost cv = array_view(trashcan_items@);
    let ghost yv = array_view(history_data@);
    push_step(&mut steps, ImportStep::SaveTrashcan { items: trashcan_items });
    push_step(&mut steps, ImportStep::SaveManifest { root: tree });
    if history_data.len() > 0 {
        push_step(&mut steps, ImportStep::WriteHistory { items: history_data });
        assert(steps_view(steps@) =~= writes + seq![
            StepView::SaveTrashcan(cv),
            StepView::SaveManifest(tv),
        ] + seq![StepView::WriteHistory(yv)]);
    } else {
        assert(steps_view(steps@) =~= writes + seq![
            StepView::SaveTrashcan(cv),
            StepView::SaveManifest(tv),
        ] + Seq::<StepView>::empty());
    }
    ImportOutcome::Apply(steps)
}


// ---- v3 --------------------------------------------------------------------------

fn fits_node(n: &JsonValue) -> (r: bool)
    ensures
        r == v3_fits_node(n@),
    decreases jsize(n@), 0nat,
{
    match n {
        JsonValue::Object(es) => fits_members(es),
        _ => true,
    }
}

fn fits_members(es: &Vec<(String, JsonValue)>) -> (r: bool)
    ensures
        r == v3_fits_members(object_view(es@)),
    decreases crate::storage::tree_model::members_size(object_view(es@)), 0nat,
{
    let ghost ov = object_view(es@);
    let mut i: usize = 0;
    assert(ov.skip(0) =~= ov);
    while i < es.len()
        invariant
            i <= es@.len(),
            ov == object_view(es@),
            v3_fits_members(ov) == v3_fits_members(ov.skip(i as int)),
        decreases es@.len() - i,
    {
        let ghost rest = ov.skip(i as int);
        assert(rest[0] == ov[i as int]);
        assert(rest.drop_first() =~= ov.skip(i + 1));
        proof {
            lemma_members_size_elem(ov, i as int);
        }
        let k = es[i].0.as_str();
        let v = &es[i].1;
        let here = if str_eq(k, "refresh_interval") {
            match v.as_u64() {
                Some(h) => h <= 5124095576030431u64,
                None => true,
            }
        } else if str_eq(k, "children") {
            match v {
                JsonValue::Array(c) => fits_list(c),
                _ => true,
            }
        } else {
            true
        };
        if !here {
            return false;
        }
        i = i + 1;
    }
    true
}

fn fits_list(s: &Vec<JsonValue>) -> (r: bool)
    ensures
        r == v3_fits_list(array_view(s@)),
    decreases seq_size(array_view(s@)), 1nat,
{
    let ghost av = array_view(s@);
    let mut i: usize = 0;
    assert(av.skip(0) =~= av);
    while i < s.len()
        invariant
            i <= s@.len(),
            av == array_view(s@),
            v3_fits_list(av) == v3_fits_list(av.skip(i as int)),
        decreases s@.len() - i,
    {
        let ghost rest = av.skip(i as int);
        assert(rest[0] == av[i as int]);
        assert(rest.drop_first() =~= av.skip(i + 1));
        proof {
            lemma_seq_size_elem(av, i as int);
        }
        if !fits_node(&s[i]) {
            return false;
        }
        i = i + 1;
    }
    true
}

fn import_fits_exec(data: &JsonValue) -> (r: bool)
    ensures
        r == import_fits(data@),
{
    if !data.is_object() {
        return true;
    }
    if let Some(f) = data.get_str("format") {
        if str_eq(f, "switchhosts-backup") {
            return true;
        }
    }
    let version = match data.get_array("version") {
        Some(v) => v,
        None => return true,
    };
    let major: u64 = if version.len() > 0 {
        match version[0].as_u64() {
            Some(u) => u,
            None => 0,
        }
    } else {
        0
    };
    assert(major == major_version(array_view(version@)));
    if major != 3 {
        return true;
    }
    match data.get_array("list") {
        Some(list) => fits_list(list),
        None => true,
    }
}

fn convert_v3_node(node: &JsonValue, steps: &mut Vec<ImportStep>) -> (r: JsonValue)
    requires
        v3_fits_node(node@),
    ensures
        r@ == v3_convert_node(node@).0,
        steps_view(final(steps)@) == steps_view(old(steps)@) + v3_convert_node(node@).1,
    decreases jsize(node@), 0nat,
{
    match node {
        JsonValue::Object(es) => {
            let ghost ov = object_view(es@);
            let ghost start = steps_view(steps@);
            let ghost mut w: Seq<StepView> = Seq::empty();
            let mut out: Vec<(String, JsonValue)> = Vec::new();
            let mut i: usize = 0;
            assert(ov.skip(0) =~= ov);
            assert(object_view(out@) =~= Seq::<(Seq<char>, Json)>::empty());
            assert(start + w =~= start);
            while i < es.len()
                invariant
                    i <= es@.len(),
                    ov == object_view(es@),
                    node@ == Json::Object(ov),
                    v3_fits_members(ov.skip(i as int)),
                    v3_convert_members(ov, Seq::empty(), Seq::empty()) == v3_convert_members(
                        ov.skip(i as int),
                        object_view(out@),
                        w,
                    ),
                    steps_view(steps@) == start + w,
                    start == steps_view(old(steps)@),
                decreases es@.len() - i,
            {
                let ghost rest = ov.skip(i as int);
                assert(rest[0] == ov[i as int]);
                assert(rest.drop_first() =~= ov.skip(i + 1));
                proof {
                    lemma_members_size_elem(ov, i as int);
                }
                let k = es[i].0.as_str();
                let v = &es[i].1;
                if str_eq(k, "where") || str_eq(k, "content") {
                } else if str_eq(k, "refresh_interval") {
                    let hours: u64 = match v.as_u64() {
                        Some(h) => h,
                        None => 0,
                    };
                    members_insert(
                        &mut out,
                        string_of(k),
                        JsonValue::Number(JsonNumber::from_u64(hours * 3600)),
                    );
                } else if str_eq(k, "children") {
                    match v {
                        JsonValue::Array(c) => {
                            let ghost before = steps_view(steps@);
                            let c2 = convert_v3_list(c, steps);
                            proof {
                                w = w + v3_convert_list(array_view(c@)).1;
                            }
                            assert(steps_view(steps@) =~= start + w);
                            members_insert(&mut out, string_of(k), JsonValue::Array(c2));
                        },
                        _ => {
                            members_insert(&mut out, string_of(k), v.deep_clone());
                        },
                    }
                } else {
                    members_insert(&mut out, string_of(k), v.deep_clone());
                }
                i = i + 1;
            }
            assert(ov.skip(i as int) =~= Seq::<(Seq<char>, Json)>::empty());
            if let Some(where_val) = node.get("where") {
                members_insert(&mut out, string_of("type"), where_val.deep_clone());
            }
            let ghost before_own = steps_view(steps@);
            match (node.get_str("id"), node.get_str("content")) {
                (Some(id), Some(content)) => {
                    if !str_eq(id, "0") {
                        push_step(
                            steps,
                            ImportStep::WriteEntry { id: string_of(id), content: string_of(content) },
                        );
                    }
                },
                _ => {},
            }
            assert(steps_view(steps@) =~= before_own + v3_own_write(node@));
            JsonValue::Object(out)
        },
        _ => node.deep_clone(),
    }
}

fn convert_v3_list(list: &Vec<JsonValue>, steps: &mut Vec<ImportStep>) -> (r: Vec<JsonValue>)
    requires
        v3_fits_list(array_view(list@)),
    ensures
        array_view(r@) == v3_convert_list(array_view(list@)).0,
        steps_view(final(steps)@) == steps_view(old(steps)@) + v3_convert_list(
            array_view(list@),
        ).1,
    decreases seq_size(array_view(list@)), 1nat,
{
    let ghost av = array_view(list@);
    let ghost start = steps_view(steps@);
    let ghost mut w: Seq<StepView> = Seq::empty();
    let mut out: Vec<JsonValue> = Vec::new();
    let mut i: usize = 0;
    assert(av.skip(0) =~= av);
    assert(array_view(out@) + v3_convert_list(av).0 =~= v3_convert_list(av).0);
    assert(start + w =~= start);
    assert(w + v3_convert_list(av).1 =~= v3_convert_list(av).1);
    while i < list.len()
        invariant
            i <= list@.len(),
            av == array_view(list@),
            v3_fits_list(av.skip(i as int)),
            v3_convert_list(av).0 == array_view(out@) + v3_convert_list(av.skip(i as int)).0,
            v3_convert_list(av).1 == w + v3_convert_list(av.skip(i as int)).1,
            steps_view(steps@) == start + w,
            start == steps_view(old(steps)@),
        decreases list@.len() - i,
    {
        let ghost rest = av.skip(i as int);
        assert(rest[0] == av[i as int]);
        assert(rest.drop_first() =~= av.skip(i + 1));
        proof {
            lemma_seq_size_elem(av, i as int);
        }
        let ghost before_out = array_view(out@);
        let converted = convert_v3_node(&list[i], steps);
        out.push(converted);
        proof {
            let (a, w1) = v3_convert_node(av[i as int]);
            let (tail, w2) = v3_convert_list(av.skip(i + 1));
            assert(array_view(out@) =~= before_out.push(a));
            assert(before_out + (seq![a] + tail) =~= array_view(out@) + tail);
            assert(w + (w1 + w2) =~= (w + w1) + w2);
            w = w + w1;
        }
        assert(steps_view(steps@) =~= start + w);
        i = i + 1;
    }
    assert(av.skip(i as int) =~= Seq::<Json>::empty());
    assert(array_view(out@) + Seq::<Json>::empty() =~= array_view(out@));
    assert(w + Seq::<StepView>::empty() =~= w);
    out
}

fn import_v3(data: &JsonValue) -> (r: ImportOutcome)
    requires
        is_v3_backup(data@) ==> import_fits(data@),
        is_v3_backup(data@),
    ensures
        r@ == import_v3_spec(data@),
{
    let list = match data.get_array("list") {
        Some(l) => l,
        None => return refused(ERR_INVALID_V3_DATA),
    };
    let mut steps: Vec<ImportStep> = Vec::new();
    assert(steps_view(steps@) =~= Seq::<StepView>::empty());
    let converted = convert_v3_list(list, &mut steps);
    let ghost writes = steps_view(steps@);
    let ghost nv = array_view(converted@);
    push_step(&mut steps, ImportStep::SaveManifest { root: converted });
    push_step(&mut steps, ImportStep::SaveTrashcan { items: Vec::new() });
    assert(steps_view(steps@) =~= writes + seq![
        StepView::SaveManifest(nv),
        StepView::SaveTrashcan(Seq::empty()),
    ]);
    ImportOutcome::Apply(steps)
}

} // verus!
