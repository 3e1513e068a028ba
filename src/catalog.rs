//! The device catalog: the names the host enumerates, deduplicated and
//! classified as capture sources or playback (remote) sources.
use vstd::prelude::*;
use vstd::string::*;

verus! {

/// One catalog entry. `is_input` is false for playback devices and for
/// capture endpoints that loop back what is played.
#[derive(Clone, Debug)]
pub struct DeviceInfo {
    pub name: String,
    pub is_input: bool,
}

impl View for DeviceInfo {
    type V = (Seq<char>, bool);

    open spec fn view(&self) -> Self::V {
        (self.name@, self.is_input)
    }
}

/// Name for what `str::to_lowercase` makes of a string.
pub uninterp spec fn lower_of(s: Seq<char>) -> Seq<char>;

/// Relies on `str::to_lowercase`: the lowercase form of a string, which
/// depends on its characters alone.
#[verifier::external_body]
fn lowercase(s: &String) -> (r: String)
    ensures
        r@ == lower_of(s@),
{
    s.to_lowercase()
}

/// Whether `needle` occurs in `hay` as a contiguous run.
pub open spec fn occurs_in(hay: Seq<char>, needle: Seq<char>) -> bool {
    exists|i: int| 0 <= i && i + needle.len() <= hay.len() && #[trigger] hay.subrange(i, i + needle.len()) == needle
}

/// A capture endpoint whose name, in lowercase, mentions loopback.
pub open spec fn is_loopback_name(name: Seq<char>) -> bool {
    occurs_in(lower_of(name), "loopback"@)
}

/// Entries in enumeration order, before deduplication: capture endpoints
/// first, then playback devices.
pub open spec fn catalog_candidates(inputs: Seq<Seq<char>>, outputs: Seq<Seq<char>>) -> Seq<(Seq<char>, bool)> {
    inputs.map_values(|n: Seq<char>| (n, !is_loopback_name(n))) + outputs.map_values(
        |n: Seq<char>| (n, false),
    )
}

pub open spec fn entry_names(s: Seq<(Seq<char>, bool)>) -> Seq<Seq<char>> {
    s.map_values(|e: (Seq<char>, bool)| e.0)
}

/// Keeps the first entry of each name.
pub open spec fn first_of_each_name(s: Seq<(Seq<char>, bool)>) -> Seq<(Seq<char>, bool)>
    decreases s.len(),
{
    if s.len() == 0 {
        Seq::empty()
    } else {
        let kept = first_of_each_name(s.drop_last());
        if entry_names(kept).contains(s.last().0) {
            kept
        } else {
            kept.push(s.last())
        }
    }
}

pub open spec fn views_of(v: Seq<String>) -> Seq<Seq<char>> {
    v.map_values(|s: String| s@)
}

pub open spec fn infos_view(v: Seq<DeviceInfo>) -> Seq<(Seq<char>, bool)> {
    v.map_values(|d: DeviceInfo| d@)
}

fn matches_at(hay: &str, needle: &str, at: usize) -> (r: bool)
    requires
        at + needle@.len() <= hay@.len(),
        hay@.len() <= usize::MAX,
    ensures
        r == (hay@.subrange(at as int, at + needle@.len()) == needle@),
{
    let n = needle.unicode_len();
    let mut k: usize = 0;
    while k < n
        invariant
            n == needle@.len(),
            at + n <= hay@.len(),
            hay@.len() <= usize::MAX,
            k <= n,
            forall|j: int| 0 <= j < k ==> hay@[at + j] == needle@[j],
        decreases n - k,
    {
        if hay.get_char(at + k) != needle.get_char(k) {
            assert(hay@.subrange(at as int, at + n)[k as int] != needle@[k as int]);
            return false;
        }
        k += 1;
    }
    assert(hay@.subrange(at as int, at + n) =~= needle@);
    true
}

/// Whether `needle` occurs in `hay`.
pub fn contains_text(hay: &str, needle: &str) -> (r: bool)
    ensures
        r == occurs_in(hay@, needle@),
{
    let h = hay.unicode_len();
    let n = needle.unicode_len();
    if n > h {
        return false;
    }
    if n == 0 {
        assert(hay@.subrange(0, 0 + needle@.len() as int) =~= needle@);
        return true;
    }
    let mut i: usize = 0;
    while i <= h - n
        invariant
            h == hay@.len(),
            n == needle@.len(),
            n <= h,
            i <= h - n + 1,
            0 < n,
            forall|j: int| 0 <= j < i ==> #[trigger] hay@.subrange(j, j + n) != needle@,
        decreases h - n + 1 - i,
    {
        if matches_at(hay, needle, i) {
            return true;
        }
        i += 1;
    }
    false
}

fn has_name(devices: &Vec<DeviceInfo>, name: &String) -> (r: bool)
    ensures
        r == entry_names(infos_view(devices@)).contains(name@),
{
    let mut i: usize = 0;
    while i < devices.len()
        invariant
            i <= devices@.len(),
            forall|j: int| 0 <= j < i ==> devices@[j].name@ != name@,
        decreases devices@.len() - i,
    {
        if devices[i].name == *name {
            assert(entry_names(infos_view(devices@))[i as int] == name@);
            return true;
        }
        i += 1;
    }
    assert(!entry_names(infos_view(devices@)).contains(name@)) by {
        if entry_names(infos_view(devices@)).contains(name@) {
            let j = choose|j: int| 0 <= j < devices@.len() && entry_names(infos_view(devices@))[j] == name@;
            assert(devices@[j].name@ == name@);
        }
    }
    false
}

/// Adds a candidate unless one of its name is already listed.
fn add_candidate(devices: &mut Vec<DeviceInfo>, name: &String, is_input: bool)
    ensures
        infos_view(final(devices)@) == (if entry_names(infos_view(old(devices)@)).contains(name@) {
            infos_view(old(devices)@)
        } else {
            infos_view(old(devices)@).push((name@, is_input))
        }),
{
    if !has_name(devices, name) {
        devices.push(DeviceInfo { name: name.clone(), is_input });
        assert(infos_view(devices@) =~= infos_view(old(devices)@).push((name@, is_input)));
    }
}

/// Builds the catalog from the names of the host's capture endpoints and
/// playback devices, in enumeration order. A capture endpoint counts as an
/// input unless its lowercase name contains "loopback"; a playback device
/// never does. Of entries that share a name, the first is kept.
pub fn get_audio_devices(input_names: &Vec<String>, output_names: &Vec<String>) -> (r: Vec<DeviceInfo>)
    ensures
        infos_view(r@) == first_of_each_name(
            catalog_candidates(views_of(input_names@), views_of(output_names@)),
        ),
        forall|i: int, j: int| 0 <= i < j < r@.len() ==> r@[i].name@ != r@[j].name@,
{
    let ghost cands = catalog_candidates(views_of(input_names@), views_of(output_names@));
    let ghost n_in = input_names@.len() as int;
    let mut devices: Vec<DeviceInfo> = Vec::new();
    let mut k: usize = 0;
    assert(cands.take(0) =~= Seq::<(Seq<char>, bool)>::empty());
    while k < input_names.len()
        invariant
            k <= input_names@.len(),
            n_in == input_names@.len(),
            cands == catalog_candidates(views_of(input_names@), views_of(output_names@)),
            infos_view(devices@) == first_of_each_name(cands.take(k as int)),
        decreases input_names@.len() - k,
    {
        let name = &input_names[k];
        let lower = lowercase(name);
        let loopback = contains_text(lower.as_str(), "loopback");
        add_candidate(&mut devices, name, !loopback);
        assert(cands.take(k + 1).drop_last() =~= cands.take(k as int));
        assert(cands[k as int] == (name@, !is_loopback_name(name@)));
        k += 1;
    }
    let mut m: usize = 0;
    while m < output_names.len()
        invariant
            m <= output_names@.len(),
            n_in == input_names@.len(),
            cands == catalog_candidates(views_of(input_names@), views_of(output_names@)),
            cands.len() == n_in + output_names@.len(),
            infos_view(devices@) == first_of_each_name(cands.take(n_in + m)),
        decreases output_names@.len() - m,
    {
        let name = &output_names[m];
        add_candidate(&mut devices, name, false);
        assert(cands.take(n_in + m + 1).drop_last() =~= cands.take(n_in + m));
        assert(cands[n_in + m] == (name@, false));
        m += 1;
    }
    assert(cands.take(n_in + m) =~= cands);
    proof {
        lemma_catalog_names_distinct(cands);
        assert forall|i: int, j: int| 0 <= i < j < devices@.len() implies devices@[i].name@
            != devices@[j].name@ by {
            assert(infos_view(devices@)[i] == devices@[i]@);
            assert(infos_view(devices@)[j] == devices@[j]@);
        }
    }
    devices
}

/// No two entries of a deduplicated catalog share a name.
pub proof fn lemma_catalog_names_distinct(s: Seq<(Seq<char>, bool)>)
    ensures
        ({
            let d = first_of_each_name(s);
            forall|i: int, j: int| 0 <= i < j < d.len() ==> d[i].0 != d[j].0
        }),
    decreases s.len(),
{
    if s.len() > 0 {
        let kept = first_of_each_name(s.drop_last());
        lemma_catalog_names_distinct(s.drop_last());
        if !entry_names(kept).contains(s.last().0) {
            let d = kept.push(s.last());
            assert forall|i: int, j: int| 0 <= i < j < d.len() implies d[i].0 != d[j].0 by {
                if j == d.len() - 1 {
                    assert(entry_names(kept)[i] == kept[i].0);
                }
            }
        }
    }
}

} // verus!
