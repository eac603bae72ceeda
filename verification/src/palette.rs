//! Items of the command palette, fuzzy matching, and their ordering.
use vstd::prelude::*;

use crate::command::lemma_filter_step;
use crate::sort::{is_stable_sort, stable_sort_indices};
use crate::text::{
    chars_of, owned, push_char, push_str, seq_contains, seq_starts_with, str_contains,
    str_starts_with, to_lower, unicode_lower,
};
use crate::ui_state::{view_key, TuiView};
use vstd::utf8::encode_utf8;

verus! {

#[derive(Clone, Copy, Debug, PartialEq, Eq, Structural)]
pub enum PickerCategory {
    ServiceAction,
    ProjectAction,
    DetectedCommand,
    Navigation,
}

/// The order in which categories are listed.
pub open spec fn picker_rank(c: PickerCategory) -> int {
    match c {
        PickerCategory::ServiceAction => 0,
        PickerCategory::ProjectAction => 1,
        PickerCategory::DetectedCommand => 2,
        PickerCategory::Navigation => 3,
    }
}

impl PickerCategory {
    pub fn label(&self) -> (r: &'static str)
        ensures
            r@ == match self {
                PickerCategory::ServiceAction => "Service Actions"@,
                PickerCategory::ProjectAction => "Project Actions"@,
                PickerCategory::DetectedCommand => "Commands"@,
                PickerCategory::Navigation => "Navigation"@,
            },
    {
        match self {
            PickerCategory::ServiceAction => "Service Actions",
            PickerCategory::ProjectAction => "Project Actions",
            PickerCategory::DetectedCommand => "Commands",
            PickerCategory::Navigation => "Navigation",
        }
    }

    pub fn icon(&self) -> (r: &'static str)
        ensures
            r@ == match self {
                PickerCategory::ServiceAction => "●"@,
                PickerCategory::ProjectAction => "◉"@,
                PickerCategory::DetectedCommand => "▶"@,
                PickerCategory::Navigation => "◇"@,
            },
    {
        match self {
            PickerCategory::ServiceAction => "●",
            PickerCategory::ProjectAction => "◉",
            PickerCategory::DetectedCommand => "▶",
            PickerCategory::Navigation => "◇",
        }
    }

    /// Position in the listing order.
    pub fn rank(&self) -> (r: i64)
        ensures
            r == picker_rank(*self),
    {
        match self {
            PickerCategory::ServiceAction => 0,
            PickerCategory::ProjectAction => 1,
            PickerCategory::DetectedCommand => 2,
            PickerCategory::Navigation => 3,
        }
    }
}

/// An entry of the palette: a command line to run or a view to open.
#[derive(Debug)]
pub struct PickerItem {
    pub label: String,
    pub detail: Option<String>,
    pub category: PickerCategory,
    pub command: Option<String>,
    pub target_view: Option<TuiView>,
    pub service_id: Option<String>,
}

/// The contents of a palette item.
pub struct PickerItemView {
    pub label: Seq<char>,
    pub detail: Option<Seq<char>>,
    pub category: PickerCategory,
    pub command: Option<Seq<char>>,
    pub target_view: Option<TuiView>,
    pub service_id: Option<Seq<char>>,
}

pub open spec fn opt_chars(o: Option<String>) -> Option<Seq<char>> {
    match o {
        Some(s) => Some(s@),
        None => None,
    }
}

impl View for PickerItem {
    type V = PickerItemView;

    open spec fn view(&self) -> PickerItemView {
        PickerItemView {
            label: self.label@,
            detail: opt_chars(self.detail),
            category: self.category,
            command: opt_chars(self.command),
            target_view: self.target_view,
            service_id: opt_chars(self.service_id),
        }
    }
}

fn clone_opt(o: &Option<String>) -> (r: Option<String>)
    ensures
        r == *o,
{
    match o {
        Some(s) => Some(s.clone()),
        None => None,
    }
}

impl Clone for PickerItem {
    fn clone(&self) -> (r: Self)
        ensures
            r == *self,
    {
        PickerItem {
            label: self.label.clone(),
            detail: clone_opt(&self.detail),
            category: self.category,
            command: clone_opt(&self.command),
            target_view: self.target_view,
            service_id: clone_opt(&self.service_id),
        }
    }
}

fn opt_owned(o: Option<&str>) -> (r: Option<String>)
    ensures
        match o {
            Some(s) => r is Some && r->0@ == s@,
            None => r is None,
        },
{
    match o {
        Some(s) => Some(owned(s)),
        None => None,
    }
}

pub open spec fn opt_str_view(o: Option<&str>) -> Option<Seq<char>> {
    match o {
        Some(s) => Some(s@),
        None => None,
    }
}

pub open spec fn service_item(label: Seq<char>, detail: Option<Seq<char>>, command: Seq<char>, sid: Seq<char>) -> PickerItemView {
    PickerItemView {
        label,
        detail,
        category: PickerCategory::ServiceAction,
        command: Some(command),
        target_view: None,
        service_id: Some(sid),
    }
}

pub open spec fn project_item(label: Seq<char>, detail: Option<Seq<char>>, command: Seq<char>) -> PickerItemView {
    PickerItemView {
        label,
        detail,
        category: PickerCategory::ProjectAction,
        command: Some(command),
        target_view: None,
        service_id: None,
    }
}

pub open spec fn nav_item(label: Seq<char>, view: TuiView) -> PickerItemView {
    PickerItemView {
        label,
        detail: Some("Press '"@ + seq![view_key(view)] + "' for quick access"@),
        category: PickerCategory::Navigation,
        command: None,
        target_view: Some(view),
        service_id: None,
    }
}

/// Whether `p` is a subsequence of `l`.
pub open spec fn is_subseq(p: Seq<char>, l: Seq<char>) -> bool
    decreases l.len(),
{
    if p.len() == 0 {
        true
    } else if l.len() == 0 {
        false
    } else if p[0] == l[0] {
        is_subseq(p.drop_first(), l.drop_first())
    } else {
        is_subseq(p, l.drop_first())
    }
}

/// The characters of the lowercased pattern occur in order in the
/// lowercased label; an empty pattern matches everything.
pub open spec fn fuzzy(label: Seq<char>, pattern: Seq<char>) -> bool {
    pattern.len() == 0 || is_subseq(unicode_lower(pattern), unicode_lower(label))
}

/// Prefix matches score highest, then substring matches, then fuzzy
/// matches, each less the label's length in UTF-8 bytes.
pub open spec fn fuzzy_rank(label: Seq<char>, pattern: Seq<char>) -> int {
    let l = unicode_lower(label);
    let p = unicode_lower(pattern);
    let n = encode_utf8(label).len() as int;
    if pattern.len() == 0 {
        0
    } else if seq_starts_with(l, p) {
        1000 - n
    } else if seq_contains(l, p) {
        500 - n
    } else if fuzzy(label, pattern) {
        100 - n
    } else {
        -1000
    }
}

/// The label is short enough for its length to count in a score.
pub open spec fn label_fits(label: Seq<char>) -> bool {
    encode_utf8(label).len() <= i32::MAX
}

impl PickerItem {
    pub fn new_service_action(label: &str, detail: Option<&str>, command: &str, service_id: &str) -> (r: Self)
        ensures
            r@ == service_item(label@, opt_str_view(detail), command@, service_id@),
    {
        PickerItem {
            label: owned(label),
            detail: opt_owned(detail),
            category: PickerCategory::ServiceAction,
            command: Some(owned(command)),
            target_view: None,
            service_id: Some(owned(service_id)),
        }
    }

    pub fn new_project_action(label: &str, detail: Option<&str>, command: &str) -> (r: Self)
        ensures
            r@ == project_item(label@, opt_str_view(detail), command@),
    {
        PickerItem {
            label: owned(label),
            detail: opt_owned(detail),
            category: PickerCategory::ProjectAction,
            command: Some(owned(command)),
            target_view: None,
            service_id: None,
        }
    }

    pub fn new_detected_command(label: &str, command: &str, detail: Option<&str>) -> (r: Self)
        ensures
            r@ == (PickerItemView {
                label: label@,
                detail: opt_str_view(detail),
                category: PickerCategory::DetectedCommand,
                command: Some(command@),
                target_view: None,
                service_id: None,
            }),
    {
        PickerItem {
            label: owned(label),
            detail: opt_owned(detail),
            category: PickerCategory::DetectedCommand,
            command: Some(owned(command)),
            target_view: None,
            service_id: None,
        }
    }

    /// An item that opens a view; its detail names the view's key.
    pub fn new_navigation(label: &str, view: TuiView) -> (r: Self)
        ensures
            r@ == nav_item(label@, view),
    {
        let mut d = owned("Press '");
        push_char(&mut d, view.key());
        push_str(&mut d, "' for quick access");
        proof {
            assert(d@ =~= "Press '"@ + seq![view_key(view)] + "' for quick access"@);
        }
        PickerItem {
            label: owned(label),
            detail: Some(d),
            category: PickerCategory::Navigation,
            command: None,
            target_view: Some(view),
            service_id: None,
        }
    }

    /// Whether the pattern's characters occur in order in the label,
    /// ignoring case.
    pub fn fuzzy_matches(&self, pattern: &str) -> (r: bool)
        ensures
            r == fuzzy(self.label@, pattern@),
    {
        let pc = chars_of(pattern);
        if pc.len() == 0 {
            return true;
        }
        let ll = to_lower(self.label.as_str());
        let pl = to_lower(pattern);
        let l = chars_of(ll.as_str());
        let p = chars_of(pl.as_str());
        let mut i: usize = 0;
        let mut j: usize = 0;
        assert(l@.skip(0) =~= l@);
        assert(p@.skip(0) =~= p@);
        while i < l.len()
            invariant
                i <= l.len(),
                j <= p.len(),
                is_subseq(p@, l@) == is_subseq(p@.skip(j as int), l@.skip(i as int)),
            decreases l.len() - i,
        {
            proof {
                let ps = p@.skip(j as int);
                let ls = l@.skip(i as int);
                assert(ls[0] == l@[i as int]);
                assert(ls.drop_first() =~= l@.skip(i + 1));
                if j < p.len() {
                    assert(ps[0] == p@[j as int]);
                    assert(ps.drop_first() =~= p@.skip(j + 1));
                }
            }
            if j < p.len() && p[j] == l[i] {
                j = j + 1;
            }
            i = i + 1;
        }
        proof {
            let ps = p@.skip(j as int);
            if ps.len() > 0 {
                assert(l@.skip(i as int).len() == 0);
            }
        }
        j == p.len()
    }

    /// The match score `fuzzy_rank` describes.
    pub fn fuzzy_score(&self, pattern: &str) -> (r: i32)
        requires
            label_fits(self.label@),
        ensures
            r == fuzzy_rank(self.label@, pattern@),
    {
        let pc = chars_of(pattern);
        if pc.len() == 0 {
            return 0;
        }
        let ll = to_lower(self.label.as_str());
        let pl = to_lower(pattern);
        let n = self.label.as_str().len();
        assert(n == encode_utf8(self.label@).len());
        let n32 = n as i32;
        if str_starts_with(ll.as_str(), pl.as_str()) {
            return 1000 - n32;
        }
        if str_contains(ll.as_str(), pl.as_str()) {
            return 500 - n32;
        }
        if self.fuzzy_matches(pattern) {
            return 100 - n32;
        }
        -1000
    }
}

/// The items shown for the selected service.
pub open spec fn selected_items(sid: Seq<char>) -> Seq<PickerItemView> {
    seq![
        service_item("Start "@ + sid, Some("Start the service"@), "start "@ + sid, sid),
        service_item("Stop "@ + sid, Some("Stop the service"@), "stop "@ + sid, sid),
        service_item("Restart "@ + sid, Some("Restart the service"@), "restart "@ + sid, sid),
        service_item("Kill "@ + sid, Some("Force kill the service"@), "kill "@ + sid, sid),
        service_item("Clear logs for "@ + sid, Some("Clear the log buffer"@), "clear "@ + sid, sid),
    ]
}

/// The items shown for a service that is not selected.
pub open spec fn other_service_items(id: Seq<char>) -> Seq<PickerItemView> {
    seq![
        service_item("Start "@ + id, None, "start "@ + id, id),
        service_item("Stop "@ + id, None, "stop "@ + id, id),
        service_item("Restart "@ + id, None, "restart "@ + id, id),
    ]
}

/// The items for every service but the selected one, in the given order.
pub open spec fn others(ids: Seq<Seq<char>>, sel: Option<Seq<char>>) -> Seq<PickerItemView>
    decreases ids.len(),
{
    if ids.len() == 0 {
        seq![]
    } else {
        let rest = others(ids.drop_last(), sel);
        if sel == Some(ids.last()) {
            rest
        } else {
            rest + other_service_items(ids.last())
        }
    }
}

/// The project-wide actions and the navigation items.
pub open spec fn fixed_items() -> Seq<PickerItemView> {
    seq![
        project_item("Start all services"@, Some("Start all defined services"@), "start all"@),
        project_item("Stop all services"@, Some("Stop all running services"@), "stop all"@),
        project_item("Restart all services"@, Some("Restart all services"@), "restart all"@),
        project_item("Kill all services"@, Some("Force kill all services"@), "kill all"@),
        project_item("Clear all logs"@, Some("Clear log buffers for all services"@), "clear all"@),
        nav_item("Open Logs view"@, TuiView::Logs),
        nav_item("Open Inspect view"@, TuiView::Inspect),
        nav_item("Open Exec view"@, TuiView::Exec),
        nav_item("Open Dependencies view"@, TuiView::Deps),
        nav_item("Open Metrics view"@, TuiView::Metrics),
    ]
}

/// Every item of the palette: the selected service's actions, the other
/// services' actions, the project actions, and the navigation items.
pub open spec fn all_picker_items(ids: Seq<Seq<char>>, sel: Option<Seq<char>>) -> Seq<PickerItemView> {
    (match sel {
        Some(s) => selected_items(s),
        None => seq![],
    }) + others(ids, sel) + fixed_items()
}

pub open spec fn item_views(v: Seq<PickerItem>) -> Seq<PickerItemView> {
    v.map_values(|i: PickerItem| i@)
}

pub open spec fn string_views(v: Seq<String>) -> Seq<Seq<char>> {
    v.map_values(|s: String| s@)
}

pub proof fn lemma_views_push(v: Seq<String>, s: String)
    ensures
        string_views(v.push(s)) == string_views(v).push(s@),
{
    assert(string_views(v.push(s)) =~= string_views(v).push(s@));
}

/// `a + b` as a new text.
fn join(a: &str, b: &str) -> (r: String)
    ensures
        r@ == a@ + b@,
{
    let mut s = owned(a);
    push_str(&mut s, b);
    s
}

/// Pushes an item, keeping the list of views in step.
fn push_item(items: &mut Vec<PickerItem>, it: PickerItem)
    ensures
        item_views(final(items)@) == item_views(old(items)@).push(it@),
{
    items.push(it);
    proof {
        assert(item_views(items@) =~= item_views(old(items)@).push(it@));
    }
}

/// The palette's items for the given services and selection; the list of
/// detected commands is not used.
pub fn build_picker_items(service_ids: &[String], selected_service: Option<&str>, _detected_commands: &[String]) -> (r: Vec<PickerItem>)
    ensures
        item_views(r@) == all_picker_items(string_views(service_ids@), opt_str_view(selected_service)),
{
    let ghost ids = string_views(service_ids@);
    let ghost sel = opt_str_view(selected_service);
    let mut items: Vec<PickerItem> = Vec::new();
    proof {
        assert(item_views(items@) =~= seq![]);
    }
    match selected_service {
        Some(sid) => {
            push_item(&mut items, PickerItem::new_service_action(join("Start ", sid).as_str(), Some("Start the service"), join("start ", sid).as_str(), sid));
            push_item(&mut items, PickerItem::new_service_action(join("Stop ", sid).as_str(), Some("Stop the service"), join("stop ", sid).as_str(), sid));
            push_item(&mut items, PickerItem::new_service_action(join("Restart ", sid).as_str(), Some("Restart the service"), join("restart ", sid).as_str(), sid));
            push_item(&mut items, PickerItem::new_service_action(join("Kill ", sid).as_str(), Some("Force kill the service"), join("kill ", sid).as_str(), sid));
            push_item(&mut items, PickerItem::new_service_action(join("Clear logs for ", sid).as_str(), Some("Clear the log buffer"), join("clear ", sid).as_str(), sid));
            assert(item_views(items@) =~= selected_items(sid@));
        },
        None => {},
    }
    let ghost head = item_views(items@);
    assert(head == (match sel {
        Some(s) => selected_items(s),
        None => seq![],
    }));
    let mut k: usize = 0;
    while k < service_ids.len()
        invariant
            k <= service_ids.len(),
            ids == string_views(service_ids@),
            sel == opt_str_view(selected_service),
            item_views(items@) == head + others(ids.take(k as int), sel),
        decreases service_ids.len() - k,
    {
        let id = service_ids[k].as_str();
        proof {
            assert(ids.take(k + 1).drop_last() =~= ids.take(k as int));
            assert(ids.take(k + 1).last() == id@);
        }
        let skip = match selected_service {
            Some(s) => crate::command::str_eq(s, id),
            None => false,
        };
        if skip {
            assert(sel == Some(id@));
        } else {
            assert(sel != Some(id@));
            push_item(&mut items, PickerItem::new_service_action(join("Start ", id).as_str(), None, join("start ", id).as_str(), id));
            push_item(&mut items, PickerItem::new_service_action(join("Stop ", id).as_str(), None, join("stop ", id).as_str(), id));
            push_item(&mut items, PickerItem::new_service_action(join("Restart ", id).as_str(), None, join("restart ", id).as_str(), id));
            assert(item_views(items@) =~= head + others(ids.take(k as int), sel) + other_service_items(id@));
        }
        k = k + 1;
    }
    assert(ids.take(service_ids.len() as int) =~= ids);
    let ghost mid = item_views(items@);
    push_item(&mut items, PickerItem::new_project_action("Start all services", Some("Start all defined services"), "start all"));
    push_item(&mut items, PickerItem::new_project_action("Stop all services", Some("Stop all running services"), "stop all"));
    push_item(&mut items, PickerItem::new_project_action("Restart all services", Some("Restart all services"), "restart all"));
    push_item(&mut items, PickerItem::new_project_action("Kill all services", Some("Force kill all services"), "kill all"));
    push_item(&mut items, PickerItem::new_project_action("Clear all logs", Some("Clear log buffers for all services"), "clear all"));
    push_item(&mut items, PickerItem::new_navigation("Open Logs view", TuiView::Logs));
    push_item(&mut items, PickerItem::new_navigation("Open Inspect view", TuiView::Inspect));
    push_item(&mut items, PickerItem::new_navigation("Open Exec view", TuiView::Exec));
    push_item(&mut items, PickerItem::new_navigation("Open Dependencies view", TuiView::Deps));
    push_item(&mut items, PickerItem::new_navigation("Open Metrics view", TuiView::Metrics));
    assert(item_views(items@) =~= mid + fixed_items());
    items
}

/// Category ranks of a list of items.
pub open spec fn picker_ranks(s: Seq<PickerItem>) -> Seq<i64> {
    s.map_values(|i: PickerItem| picker_rank(i.category) as i64)
}

/// Labels of a list of items.
pub open spec fn picker_labels(s: Seq<PickerItem>) -> Seq<Seq<char>> {
    s.map_values(|i: PickerItem| i.label@)
}

/// Negated fuzzy scores of a list of items.
pub open spec fn picker_scores(s: Seq<PickerItem>, q: Seq<char>) -> Seq<i64> {
    s.map_values(|i: PickerItem| (-fuzzy_rank(i.label@, q)) as i64)
}

/// `n` empty texts.
pub open spec fn blanks(n: nat) -> Seq<Seq<char>> {
    Seq::new(n, |_i: int| Seq::<char>::empty())
}

/// `r` lists `m` in the order `ord`.
pub open spec fn reordered(r: Seq<PickerItem>, m: Seq<PickerItem>, ord: Seq<usize>) -> bool {
    r.len() == ord.len() && forall|i: int| 0 <= i < r.len() ==> r[i] == m[#[trigger] ord[i] as int]
}

/// Copies of `m` in the order `ord`.
fn pick_in_order(m: &Vec<PickerItem>, ord: &Vec<usize>) -> (r: Vec<PickerItem>)
    requires
        forall|j: int| 0 <= j < ord.len() ==> (#[trigger] ord@[j]) < m.len(),
    ensures
        reordered(r@, m@, ord@),
{
    let mut out: Vec<PickerItem> = Vec::new();
    let mut k: usize = 0;
    while k < ord.len()
        invariant
            k <= ord.len(),
            forall|j: int| 0 <= j < ord.len() ==> (#[trigger] ord@[j]) < m.len(),
            out@.len() == k,
            forall|j: int| 0 <= j < k ==> out@[j] == m@[#[trigger] ord@[j] as int],
        decreases ord.len() - k,
    {
        out.push(m[ord[k]].clone());
        k = k + 1;
    }
    out
}

/// The items to show for a query.  An empty query lists every item, by
/// category and then by label, items with equal keys keeping their order.
/// Otherwise the items that fuzzy-match are listed by score from highest to
/// lowest, items with equal scores keeping their order.
pub fn filter_picker_items(items: &[PickerItem], query: &str) -> (r: Vec<PickerItem>)
    requires
        forall|i: int| 0 <= i < items@.len() ==> label_fits(#[trigger] items@[i].label@),
    ensures
        query@.len() == 0 ==> exists|ord: Seq<usize>| #![trigger is_stable_sort(picker_ranks(items@), picker_labels(items@), ord)]
            is_stable_sort(picker_ranks(items@), picker_labels(items@), ord) && reordered(r@, items@, ord),
        query@.len() > 0 ==> ({
            let m = items@.filter(|i: PickerItem| fuzzy(i.label@, query@));
            exists|ord: Seq<usize>| #![trigger is_stable_sort(picker_scores(m, query@), blanks(m.len()), ord)]
                is_stable_sort(picker_scores(m, query@), blanks(m.len()), ord) && reordered(r@, m, ord)
        }),
{
    let qc = chars_of(query);
    if qc.len() == 0 {
        let mut all: Vec<PickerItem> = Vec::new();
        let mut ranks: Vec<i64> = Vec::new();
        let mut labels: Vec<String> = Vec::new();
        let mut i: usize = 0;
        while i < items.len()
            invariant
                i <= items.len(),
                all@ == items@.take(i as int),
                ranks@ == picker_ranks(items@.take(i as int)),
                string_views(labels@) == picker_labels(items@.take(i as int)),
            decreases items.len() - i,
        {
            let it = items[i].clone();
            ranks.push(it.category.rank());
            let lb = it.label.clone();
            let ghost lprev = labels@;
            labels.push(lb);
            proof {
                lemma_views_push(lprev, lb);
                assert(picker_labels(items@.take(i + 1)) =~= picker_labels(items@.take(i as int)).push(items@[i as int].label@));
            }
            all.push(it);
            proof {
                assert(all@ =~= items@.take(i + 1));
                assert(ranks@ =~= picker_ranks(items@.take(i + 1)));
                assert(string_views(labels@) =~= picker_labels(items@.take(i + 1)));
            }
            i = i + 1;
        }
        assert(items@.take(items.len() as int) =~= items@);
        let ord = stable_sort_indices(&ranks, &labels);
        return pick_in_order(&all, &ord);
    }
    let ghost p = |i: PickerItem| fuzzy(i.label@, query@);
    let mut found: Vec<PickerItem> = Vec::new();
    let mut ranks: Vec<i64> = Vec::new();
    let mut texts: Vec<String> = Vec::new();
    let mut i: usize = 0;
    while i < items.len()
        invariant
            i <= items.len(),
            forall|k: int| 0 <= k < items@.len() ==> label_fits(#[trigger] items@[k].label@),
            p == |i: PickerItem| fuzzy(i.label@, query@),
            found@ == items@.take(i as int).filter(p),
            ranks@ == picker_scores(found@, query@),
            string_views(texts@) == blanks(found@.len()),
        decreases items.len() - i,
    {
        proof {
            lemma_filter_step(items@, p, i as int);
        }
        if items[i].fuzzy_matches(query) {
            let it = items[i].clone();
            let sc = it.fuzzy_score(query);
            found.push(it);
            ranks.push(-(sc as i64));
            let e = String::new();
            let ghost tprev = texts@;
            texts.push(e);
            proof {
                lemma_views_push(tprev, e);
                assert(ranks@ =~= picker_scores(found@, query@));
                assert(string_views(texts@) =~= blanks(found@.len()));
            }
        }
        i = i + 1;
    }
    assert(items@.take(items.len() as int) =~= items@);
    let ord = stable_sort_indices(&ranks, &texts);
    pick_in_order(&found, &ord)
}

} // verus!
