//! Reconciliation: turning desired, local and remote state into a plan.
//!
//! Import mode compares a manifest against the local collection's checksums
//! and schedules what differs or is absent.  Update mode compares each
//! resolved remote item's last-updated time against the local copy's
//! creation time and schedules what is newer or not present; items the
//! service reported missing are set aside as errors.  Both reports are
//! ordered case-insensitively by display title, so their presentation is
//! deterministic.

use vstd::prelude::*;
use vstd::multiset::Multiset;
use vstd::relations::sorted_by;
use vstd::relations::strongly_connected;
use vstd::relations::transitive;
use vstd::string::StrSliceExecFns;
use vstd::utf8::encode_utf8;
use crate::order::bytes_le;
use crate::order::bytes_le_exec;
use crate::order::lemma_bytes_lt_transitive;
use crate::order::lemma_bytes_lt_trichotomy;
use crate::schemas::GetPublishedFileDetailsResponseItem;
use crate::schemas::Manifest;
use crate::schemas::Mod;
use crate::schemas::ModView;
use crate::schemas::opt_str_view;
use crate::schemas::str_seq_view;

verus! {

/// The lowercase folding of a character sequence, as str::to_lowercase
/// computes it.
pub uninterp spec fn lower_of(s: Seq<char>) -> Seq<char>;

/// Relies on str::to_lowercase: the result depends on the characters alone,
/// and an empty string stays empty.
#[verifier::external_body]
fn lowercase(s: &String) -> (r: String)
    ensures
        r@ == lower_of(s@),
        s@.len() == 0 ==> r@.len() == 0,
{
    s.to_lowercase()
}

/// The mathematical image of a list of manifest rows.
pub open spec fn mod_views(s: Seq<Mod>) -> Seq<ModView> {
    s.map_values(|m: Mod| m@)
}

/// The mathematical image of a list of optional checksums.
pub open spec fn opt_views(s: Seq<Option<String>>) -> Seq<Option<Seq<char>>> {
    s.map_values(|o: Option<String>| opt_str_view(o))
}

/// The mathematical image of a schedule: each row with its rationale.
pub open spec fn plan_views(s: Seq<(Mod, String)>) -> Seq<(ModView, Seq<char>)> {
    s.map_values(|p: (Mod, String)| (p.0@, p.1@))
}

/// Why one manifest row is scheduled, if it is: no checksum to compare
/// against, a checksum mismatch with the local copy, or no local copy at
/// all.  A row whose checksum matches the local copy is skipped.
pub open spec fn import_rationale(entry: ModView, local: Option<Seq<char>>) -> Option<Seq<char>> {
    match entry.checksum {
        None => Some("No comparison checksum"@),
        Some(cs) => match local {
            Some(lcs) => if lcs == cs {
                None
            } else {
                Some("Checksum mismatch - "@ + lcs + " local <=> import "@ + cs)
            },
            None => Some("No local version"@),
        },
    }
}

/// The import schedule: every row with a rationale, in manifest order.
pub open spec fn import_plan(entries: Seq<ModView>, locals: Seq<Option<Seq<char>>>) -> Seq<
    (ModView, Seq<char>),
>
    decreases entries.len(),
{
    if entries.len() == 0 {
        Seq::empty()
    } else {
        let rest = import_plan(entries.drop_last(), locals.drop_last());
        match import_rationale(entries.last(), locals.last()) {
            Some(reason) => rest.push((entries.last(), reason)),
            None => rest,
        }
    }
}

/// Decide the import schedule for a manifest.
///
/// `local_checksums[i]` is the checksum of the local copy of `entries[i]`,
/// or nothing if there is no local copy; the caller computes it with the
/// checksum engine.  A row is scheduled unless its checksum is present and
/// matches the local one; the rationale says why.
pub fn plan_import(entries: &Vec<Mod>, local_checksums: &Vec<Option<String>>) -> (plan: Vec<
    (Mod, String),
>)
    requires
        entries@.len() == local_checksums@.len(),
    ensures
        plan_views(plan@) == import_plan(mod_views(entries@), opt_views(local_checksums@)),
{
    let ghost all_entries = mod_views(entries@);
    let ghost all_locals = opt_views(local_checksums@);
    let mut plan: Vec<(Mod, String)> = Vec::new();
    let mut i: usize = 0;
    while i < entries.len()
        invariant
            i <= entries.len(),
            entries@.len() == local_checksums@.len(),
            all_entries == mod_views(entries@),
            all_locals == opt_views(local_checksums@),
            plan_views(plan@) == import_plan(
                all_entries.take(i as int),
                all_locals.take(i as int),
            ),
        decreases entries.len() - i,
    {
        let ghost pre = plan_views(plan@);
        let entry = &entries[i];
        let reason: Option<String> = match &entry.checksum {
            None => Some("No comparison checksum".to_owned()),
            Some(cs) => match &local_checksums[i] {
                Some(lcs) => if lcs.eq(cs) {
                    None
                } else {
                    let mut text = "Checksum mismatch - ".to_owned();
                    text.append(lcs.as_str());
                    text.append(" local <=> import ");
                    text.append(cs.as_str());
                    Some(text)
                },
                None => Some("No local version".to_owned()),
            },
        };
        match reason {
            Some(text) => {
                plan.push((entry.clone(), text));
                proof {
                    assert(plan_views(plan@) =~= pre.push(
                        (all_entries[i as int], import_rationale(
                            all_entries[i as int],
                            all_locals[i as int],
                        ).unwrap()),
                    ));
                }
            },
            None => {},
        }
        proof {
            let te = all_entries.take(i + 1);
            let tl = all_locals.take(i + 1);
            assert(te.drop_last() =~= all_entries.take(i as int));
            assert(tl.drop_last() =~= all_locals.take(i as int));
            assert(te.last() == all_entries[i as int]);
            assert(tl.last() == all_locals[i as int]);
        }
        i = i + 1;
    }
    proof {
        assert(all_entries.take(all_entries.len() as int) =~= all_entries);
        assert(all_locals.take(all_locals.len() as int) =~= all_locals);
    }
    plan
}

/// One row of an update report: an item, where the remote stands, and where
/// the local copy stands.
pub struct UpdateCandidate {
    pub id: String,
    pub title: String,
    /// Remote last-updated time, seconds since the epoch, UTC.
    pub remote_time: i64,
    /// Local folder creation time, seconds since the epoch, UTC, if the
    /// item is present locally.
    pub local_time: Option<i64>,
}

#[verifier::ext_equal]
pub ghost struct UpdateCandidateView {
    pub id: Seq<char>,
    pub title: Seq<char>,
    pub remote_time: i64,
    pub local_time: Option<i64>,
}

impl View for UpdateCandidate {
    type V = UpdateCandidateView;

    open spec fn view(&self) -> UpdateCandidateView {
        UpdateCandidateView {
            id: self.id@,
            title: self.title@,
            remote_time: self.remote_time,
            local_time: self.local_time,
        }
    }
}

/// The mathematical image of a list of update rows.
pub open spec fn cand_views(s: Seq<UpdateCandidate>) -> Seq<UpdateCandidateView> {
    s.map_values(|c: UpdateCandidate| c@)
}

/// Whether an item is due for download: always when no local creation time
/// is on record, otherwise exactly when the remote copy is strictly newer.
pub open spec fn should_download(remote_time: i64, local_time: Option<i64>) -> bool {
    match local_time {
        None => true,
        Some(t) => remote_time > t,
    }
}

/// What the update decision makes of each resolved item, in arrival order:
/// full results split into a download schedule and an up-to-date list by
/// [`should_download`]; missing-item results go to the error list alone.
pub open spec fn update_partition(
    results: Seq<(String, GetPublishedFileDetailsResponseItem)>,
    times: Seq<Option<i64>>,
) -> (Seq<UpdateCandidateView>, Seq<UpdateCandidateView>, Seq<Seq<char>>)
    decreases results.len(),
{
    if results.len() == 0 {
        (Seq::empty(), Seq::empty(), Seq::empty())
    } else {
        let prev = update_partition(results.drop_last(), times.drop_last());
        let p = results.last();
        match p.1 {
            GetPublishedFileDetailsResponseItem::FileDetails(fd) => {
                let c = UpdateCandidateView {
                    id: p.0@,
                    title: fd.title@,
                    remote_time: fd.time_updated,
                    local_time: times.last(),
                };
                if should_download(fd.time_updated, times.last()) {
                    (prev.0.push(c), prev.1, prev.2)
                } else {
                    (prev.0, prev.1.push(c), prev.2)
                }
            },
            GetPublishedFileDetailsResponseItem::MissingItem { .. } => (
                prev.0,
                prev.1,
                prev.2.push(p.0@),
            ),
        }
    }
}

/// Law: the update decision loses nothing and counts nothing twice — every
/// resolved entry lands in exactly one of the three lists: the schedule, the
/// up-to-date list, or (for a missing-item marker) the error list.
pub proof fn lemma_update_partition_complete(
    results: Seq<(String, GetPublishedFileDetailsResponseItem)>,
    times: Seq<Option<i64>>,
)
    requires
        results.len() == times.len(),
    ensures
        update_partition(results, times).0.len() + update_partition(results, times).1.len()
            + update_partition(results, times).2.len() == results.len(),
    decreases results.len(),
{
    if results.len() > 0 {
        lemma_update_partition_complete(results.drop_last(), times.drop_last());
    }
}

/// The presentation key of a row: the UTF-8 bytes of its lowercased title.
/// Byte order on these keys is the case-insensitive title order the reports
/// are sorted by.
pub open spec fn folded_key_of(title: Seq<char>) -> Seq<u8> {
    encode_utf8(lower_of(title))
}

/// The presentation order on update rows.
pub open spec fn title_le(a: UpdateCandidateView, b: UpdateCandidateView) -> bool {
    bytes_le(folded_key_of(a.title), folded_key_of(b.title))
}

/// The presentation order as a relation value.
pub open spec fn title_order() -> spec_fn(UpdateCandidateView, UpdateCandidateView) -> bool {
    |a: UpdateCandidateView, b: UpdateCandidateView| title_le(a, b)
}

/// The presentation order can always be decided and chained; rows with the
/// same folded title tie.
pub proof fn lemma_title_order_properties()
    ensures
        transitive(title_order()),
        strongly_connected(title_order()),
{
    let ord = title_order();
    assert forall|a: UpdateCandidateView, b: UpdateCandidateView, c: UpdateCandidateView|
        #[trigger] ord(a, b) && #[trigger] ord(b, c) implies ord(a, c) by {
        let ka = folded_key_of(a.title);
        let kb = folded_key_of(b.title);
        let kc = folded_key_of(c.title);
        if ka != kb && kb != kc {
            lemma_bytes_lt_transitive(ka, kb, kc);
        }
    }
    assert forall|a: UpdateCandidateView, b: UpdateCandidateView| #[trigger] ord(a, b)
        || #[trigger] ord(b, a) by {
        lemma_bytes_lt_trichotomy(folded_key_of(a.title), folded_key_of(b.title));
    }
}

fn title_le_exec(a: &UpdateCandidate, b: &UpdateCandidate) -> (r: bool)
    ensures
        r == title_le(a@, b@),
{
    let ka = lowercase(&a.title).as_str().as_bytes_vec();
    let kb = lowercase(&b.title).as_str().as_bytes_vec();
    bytes_le_exec(&ka, &kb)
}

/// Order a report case-insensitively by display title.  Rows with the same
/// folded title keep no particular order among themselves.
pub fn sort_by_title(rows: Vec<UpdateCandidate>) -> (r: Vec<UpdateCandidate>)
    ensures
        sorted_by(cand_views(r@), title_order()),
        cand_views(r@).to_multiset() == cand_views(rows@).to_multiset(),
{
    broadcast use vstd::seq_lib::group_to_multiset_ensures;
    broadcast use vstd::multiset::group_multiset_axioms;

    let ghost orig = cand_views(rows@);
    proof {
        lemma_title_order_properties();
    }
    let mut input = rows;
    let mut out: Vec<UpdateCandidate> = Vec::new();
    while input.len() > 0
        invariant
            sorted_by(cand_views(out@), title_order()),
            cand_views(out@).to_multiset().add(cand_views(input@).to_multiset())
                =~= orig.to_multiset(),
            transitive(title_order()),
            strongly_connected(title_order()),
        decreases input.len(),
    {
        let ghost before = input@;
        let x = input.pop().unwrap();
        proof {
            assert(before =~= input@.push(x));
            assert(cand_views(before) =~= cand_views(input@).push(x@));
            vstd::seq_lib::to_multiset_build(cand_views(input@), x@);
        }
        let mut j: usize = 0;
        while j < out.len() && title_le_exec(&out[j], &x)
            invariant
                j <= out.len(),
                forall|k: int| 0 <= k < j ==> title_le(#[trigger] cand_views(out@)[k], x@),
            decreases out.len() - j,
        {
            j = j + 1;
        }
        let ghost pre_out = cand_views(out@);
        out.insert(j, x);
        proof {
            assert(cand_views(out@) =~= pre_out.insert(j as int, x@));
            vstd::seq_lib::to_multiset_insert(pre_out, j as int, x@);
            broadcast use vstd::multiset::group_multiset_axioms;

            assert(cand_views(out@).to_multiset().add(cand_views(input@).to_multiset())
                =~= orig.to_multiset());
            let now = cand_views(out@);
            let ord = title_order();
            assert forall|p: int, q: int| 0 <= p < q < now.len() implies #[trigger] ord(
                now[p],
                now[q],
            ) by {
                if p < j && q > j {
                    assert(ord(now[p], pre_out[q - 1]));
                } else if q == j {
                    assert(ord(pre_out[p], x@));
                } else if p == j {
                    assert(q > j);
                    if j < pre_out.len() {
                        assert(!ord(pre_out[j as int], x@));
                        assert(ord(x@, pre_out[j as int]));
                        if q - 1 > j {
                            assert(ord(pre_out[j as int], pre_out[q - 1]));
                        }
                    }
                }
            }
        }
    }
    proof {
        broadcast use vstd::seq_lib::group_to_multiset_ensures;
        broadcast use vstd::multiset::group_multiset_axioms;

        assert forall|a: UpdateCandidateView| cand_views(input@).to_multiset().count(a) == 0 by {
            assert(!cand_views(input@).contains(a));
        }
        assert(cand_views(input@).to_multiset() =~= Multiset::<UpdateCandidateView>::empty());
        assert(cand_views(out@).to_multiset() =~= orig.to_multiset());
    }
    out
}

/// A decided update run: what to download, what already stands, and which
/// ids the service could not serve.
pub struct UpdatePlan {
    /// Items to fetch, ordered case-insensitively by title.
    pub to_download: Vec<UpdateCandidate>,
    /// Items whose local copy is current, ordered case-insensitively by
    /// title.
    pub up_to_date: Vec<UpdateCandidate>,
    /// Ids whose metadata came back as a missing-item marker, in arrival
    /// order; they appear in neither list above.
    pub missing: Vec<String>,
}

/// Decide an update run from the resolver's results.
///
/// `local_times[i]` is the creation time of the local copy of the item of
/// `results[i]`, or nothing if no local copy exists; the caller reads it
/// from the filesystem.  Full results are scheduled exactly when due (see
/// [`should_download`]); missing-item results are reported separately and
/// join neither list.
pub fn plan_update(
    results: &Vec<(String, GetPublishedFileDetailsResponseItem)>,
    local_times: &Vec<Option<i64>>,
) -> (r: UpdatePlan)
    requires
        results@.len() == local_times@.len(),
    ensures
        cand_views(r.to_download@).to_multiset() == update_partition(
            results@,
            local_times@,
        ).0.to_multiset(),
        sorted_by(cand_views(r.to_download@), title_order()),
        cand_views(r.up_to_date@).to_multiset() == update_partition(
            results@,
            local_times@,
        ).1.to_multiset(),
        sorted_by(cand_views(r.up_to_date@), title_order()),
        str_seq_view(r.missing@) == update_partition(results@, local_times@).2,
{
    let ghost all = update_partition(results@, local_times@);
    let mut to_download: Vec<UpdateCandidate> = Vec::new();
    let mut up_to_date: Vec<UpdateCandidate> = Vec::new();
    let mut missing: Vec<String> = Vec::new();
    let mut i: usize = 0;
    while i < results.len()
        invariant
            i <= results.len(),
            results@.len() == local_times@.len(),
            all == update_partition(results@, local_times@),
            cand_views(to_download@) == update_partition(
                results@.take(i as int),
                local_times@.take(i as int),
            ).0,
            cand_views(up_to_date@) == update_partition(
                results@.take(i as int),
                local_times@.take(i as int),
            ).1,
            str_seq_view(missing@) == update_partition(
                results@.take(i as int),
                local_times@.take(i as int),
            ).2,
        decreases results.len() - i,
    {
        let ghost pre_d = cand_views(to_download@);
        let ghost pre_u = cand_views(up_to_date@);
        let ghost pre_m = str_seq_view(missing@);
        match &results[i].1 {
            GetPublishedFileDetailsResponseItem::FileDetails(fd) => {
                let local_time = local_times[i];
                let due = match local_time {
                    None => true,
                    Some(t) => fd.time_updated > t,
                };
                let row = UpdateCandidate {
                    id: results[i].0.clone(),
                    title: fd.title.clone(),
                    remote_time: fd.time_updated,
                    local_time,
                };
                if due {
                    to_download.push(row);
                    proof {
                        assert(cand_views(to_download@) =~= pre_d.push(row@));
                    }
                } else {
                    up_to_date.push(row);
                    proof {
                        assert(cand_views(up_to_date@) =~= pre_u.push(row@));
                    }
                }
            },
            GetPublishedFileDetailsResponseItem::MissingItem { .. } => {
                missing.push(results[i].0.clone());
                proof {
                    assert(str_seq_view(missing@) =~= pre_m.push(results@[i as int].0@));
                }
            },
        }
        proof {
            let tr = results@.take(i + 1);
            let tt = local_times@.take(i + 1);
            assert(tr.drop_last() =~= results@.take(i as int));
            assert(tt.drop_last() =~= local_times@.take(i as int));
            assert(tr.last() == results@[i as int]);
            assert(tt.last() == local_times@[i as int]);
        }
        i = i + 1;
    }
    proof {
        assert(results@.take(results@.len() as int) =~= results@);
        assert(local_times@.take(local_times@.len() as int) =~= local_times@);
    }
    let to_download = sort_by_title(to_download);
    let up_to_date = sort_by_title(up_to_date);
    UpdatePlan { to_download, up_to_date, missing }
}

/// The export order on manifest rows: case-insensitively by id.
pub open spec fn mod_id_le(a: ModView, b: ModView) -> bool {
    bytes_le(folded_key_of(a.id), folded_key_of(b.id))
}

/// The export order as a relation value.
pub open spec fn mod_id_order() -> spec_fn(ModView, ModView) -> bool {
    |a: ModView, b: ModView| mod_id_le(a, b)
}

/// The export order can always be decided and chained; rows with the same
/// folded id tie.
pub proof fn lemma_mod_id_order_properties()
    ensures
        transitive(mod_id_order()),
        strongly_connected(mod_id_order()),
{
    let ord = mod_id_order();
    assert forall|a: ModView, b: ModView, c: ModView|
        #[trigger] ord(a, b) && #[trigger] ord(b, c) implies ord(a, c) by {
        let ka = folded_key_of(a.id);
        let kb = folded_key_of(b.id);
        let kc = folded_key_of(c.id);
        if ka != kb && kb != kc {
            lemma_bytes_lt_transitive(ka, kb, kc);
        }
    }
    assert forall|a: ModView, b: ModView| #[trigger] ord(a, b) || #[trigger] ord(b, a) by {
        lemma_bytes_lt_trichotomy(folded_key_of(a.id), folded_key_of(b.id));
    }
}

fn mod_id_le_exec(a: &Mod, b: &Mod) -> (r: bool)
    ensures
        r == mod_id_le(a@, b@),
{
    let ka = lowercase(&a.id).as_str().as_bytes_vec();
    let kb = lowercase(&b.id).as_str().as_bytes_vec();
    bytes_le_exec(&ka, &kb)
}

/// Assemble the manifest that an export writes: the given rows, ordered
/// case-insensitively by id so the document is deterministic and readable.
/// Rows with the same folded id keep no particular order among themselves.
pub fn export_manifest(rows: Vec<Mod>) -> (r: Manifest)
    ensures
        sorted_by(mod_views(r.mods@), mod_id_order()),
        mod_views(r.mods@).to_multiset() == mod_views(rows@).to_multiset(),
{
    broadcast use vstd::seq_lib::group_to_multiset_ensures;
    broadcast use vstd::multiset::group_multiset_axioms;

    let ghost orig = mod_views(rows@);
    proof {
        lemma_mod_id_order_properties();
    }
    let mut input = rows;
    let mut out: Vec<Mod> = Vec::new();
    while input.len() > 0
        invariant
            sorted_by(mod_views(out@), mod_id_order()),
            mod_views(out@).to_multiset().add(mod_views(input@).to_multiset())
                =~= orig.to_multiset(),
            transitive(mod_id_order()),
            strongly_connected(mod_id_order()),
        decreases input.len(),
    {
        let ghost before = input@;
        let x = input.pop().unwrap();
        proof {
            assert(before =~= input@.push(x));
            assert(mod_views(before) =~= mod_views(input@).push(x@));
            vstd::seq_lib::to_multiset_build(mod_views(input@), x@);
        }
        let mut j: usize = 0;
        while j < out.len() && mod_id_le_exec(&out[j], &x)
            invariant
                j <= out.len(),
                forall|k: int| 0 <= k < j ==> mod_id_le(#[trigger] mod_views(out@)[k], x@),
            decreases out.len() - j,
        {
            j = j + 1;
        }
        let ghost pre_out = mod_views(out@);
        out.insert(j, x);
        proof {
            assert(mod_views(out@) =~= pre_out.insert(j as int, x@));
            vstd::seq_lib::to_multiset_insert(pre_out, j as int, x@);
            assert(mod_views(out@).to_multiset().add(mod_views(input@).to_multiset())
                =~= orig.to_multiset());
            let now = mod_views(out@);
            let ord = mod_id_order();
            assert forall|p: int, q: int| 0 <= p < q < now.len() implies #[trigger] ord(
                now[p],
                now[q],
            ) by {
                if p < j && q > j {
                    assert(ord(now[p], pre_out[q - 1]));
                } else if q == j {
                    assert(ord(pre_out[p], x@));
                } else if p == j {
                    assert(q > j);
                    if j < pre_out.len() {
                        assert(!ord(pre_out[j as int], x@));
                        assert(ord(x@, pre_out[j as int]));
                        if q - 1 > j {
                            assert(ord(pre_out[j as int], pre_out[q - 1]));
                        }
                    }
                }
            }
        }
    }
    proof {
        assert forall|a: ModView| mod_views(input@).to_multiset().count(a) == 0 by {
            assert(!mod_views(input@).contains(a));
        }
        assert(mod_views(input@).to_multiset() =~= Multiset::<ModView>::empty());
        assert(mod_views(out@).to_multiset() =~= orig.to_multiset());
    }
    Manifest { mods: out }
}

} // verus!
