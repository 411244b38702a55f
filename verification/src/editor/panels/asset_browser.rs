//! The asset browser: where it is in the project, and the entries it lists.
use vstd::prelude::*;

use crate::paths::{
    extension, extension_of, file_name, file_name_of, parent, parent_of, paths_equal, same_path,
};
use crate::text::{
    chars_of, contains_seq, contains_str, lemma_lex_antisym, lemma_lex_refl, lemma_lex_total,
    lemma_lex_trans, lex_le, lex_le_chars, lowercase, starts_with, str_eq, to_lowercase,
};

verus! {

/// Type of an asset entry.
#[derive(Clone, Copy, Debug, PartialEq, Eq, Structural)]
pub enum AssetType {
    Directory,
    Scene,
    Prefab,
    Texture,
    Unknown,
}

/// The asset type of a file by its lowercased extension.
pub open spec fn asset_type_for(ext: Seq<char>) -> AssetType {
    if ext == "ron"@ || ext == "json"@ {
        AssetType::Scene
    } else if ext == "prefab"@ {
        AssetType::Prefab
    } else if ext == "png"@ || ext == "jpg"@ || ext == "jpeg"@ || ext == "bmp"@ || ext == "tga"@ {
        AssetType::Texture
    } else {
        AssetType::Unknown
    }
}

/// Only directories are listed as directories: no extension makes a file
/// one.
pub proof fn lemma_files_are_not_directories(path: Seq<char>, is_dir: bool, ext: Seq<char>)
    ensures
        asset_type_for(ext) != AssetType::Directory,
        listed_type(path, is_dir) == AssetType::Directory <==> is_dir,
{
}

/// The icon of an asset type.
pub open spec fn asset_icon(t: AssetType) -> Seq<char> {
    match t {
        AssetType::Directory => "[D]"@,
        AssetType::Scene => "[S]"@,
        AssetType::Prefab => "[P]"@,
        AssetType::Texture => "[T]"@,
        AssetType::Unknown => "[?]"@,
    }
}

impl AssetType {
    /// The icon for this asset type.
    pub fn icon(&self) -> (r: &'static str)
        ensures
            r@ == asset_icon(*self),
    {
        match self {
            AssetType::Directory => "[D]",
            AssetType::Scene => "[S]",
            AssetType::Prefab => "[P]",
            AssetType::Texture => "[T]",
            AssetType::Unknown => "[?]",
        }
    }

    /// The asset type of a file extension, in any letter case.
    pub fn from_extension(ext: &str) -> (r: Self)
        ensures
            r == asset_type_for(lowercase(ext@)),
    {
        let lower = to_lowercase(ext);
        let e = lower.as_str();
        if str_eq(e, "ron") || str_eq(e, "json") {
            AssetType::Scene
        } else if str_eq(e, "prefab") {
            AssetType::Prefab
        } else if str_eq(e, "png") || str_eq(e, "jpg") || str_eq(e, "jpeg") || str_eq(e, "bmp")
            || str_eq(e, "tga") {
            AssetType::Texture
        } else {
            AssetType::Unknown
        }
    }
}

/// An entry in the asset browser.
#[derive(Clone, Debug)]
pub struct AssetEntry {
    /// Entry name.
    pub name: String,
    /// Full path.
    pub path: String,
    /// Asset type.
    pub asset_type: AssetType,
}

/// The abstract entry.
pub struct AssetEntryView {
    pub name: Seq<char>,
    pub path: Seq<char>,
    pub asset_type: AssetType,
}

impl View for AssetEntry {
    type V = AssetEntryView;

    open spec fn view(&self) -> AssetEntryView {
        AssetEntryView { name: self.name@, path: self.path@, asset_type: self.asset_type }
    }
}

impl AssetEntry {
    /// A copy of this entry.
    pub fn duplicate(&self) -> (r: Self)
        ensures
            r@ == self@,
    {
        AssetEntry { name: self.name.clone(), path: self.path.clone(), asset_type: self.asset_type }
    }
}

/// Actions returned by the asset browser.
#[derive(Clone, Debug)]
pub enum AssetAction {
    NoAction,
    OpenScene(String),
    LoadPrefab(String),
    OpenDirectory(String),
}

/// The key that entries are sorted by: the lowercased name.
pub open spec fn sort_key(e: AssetEntryView) -> Seq<char> {
    lowercase(e.name)
}

/// `output` is `input` sorted by key, stably: `perm` says where each output
/// entry was in the input, keys ascend, and entries with equal keys keep
/// their input order.
pub open spec fn is_stable_sort(
    input: Seq<AssetEntryView>,
    output: Seq<AssetEntryView>,
    perm: Seq<int>,
) -> bool {
    &&& perm.len() == input.len()
    &&& output.len() == input.len()
    &&& forall|i: int| 0 <= i < perm.len() ==> 0 <= #[trigger] perm[i] < input.len()
    &&& forall|i: int| 0 <= i < perm.len() ==> #[trigger] output[i] == input[perm[i]]
    &&& forall|i: int, j: int|
        0 <= i < perm.len() && 0 <= j < perm.len() && i != j ==> #[trigger] perm[i]
            != #[trigger] perm[j]
    &&& forall|i: int, j: int|
        0 <= i < j < output.len() ==> lex_le(
            sort_key(#[trigger] output[i]),
            sort_key(#[trigger] output[j]),
        )
    &&& forall|i: int, j: int|
        0 <= i < j < output.len() && sort_key(output[i]) == sort_key(output[j]) ==> #[trigger] perm[i]
            < #[trigger] perm[j]
}

/// `output` is `input` stably sorted by lowercased name.
pub open spec fn stably_sorted(input: Seq<AssetEntryView>, output: Seq<AssetEntryView>) -> bool {
    exists|perm: Seq<int>| is_stable_sort(input, output, perm)
}

proof fn lemma_insert_keeps_stable(
    input: Seq<AssetEntryView>,
    output: Seq<AssetEntryView>,
    perm: Seq<int>,
    x: AssetEntryView,
    j: int,
)
    requires
        is_stable_sort(input, output, perm),
        0 <= j <= output.len(),
        forall|m: int| 0 <= m < j ==> lex_le(sort_key(#[trigger] output[m]), sort_key(x)),
        forall|m: int| j <= m < output.len() ==> !lex_le(sort_key(#[trigger] output[m]), sort_key(x)),
    ensures
        is_stable_sort(input.push(x), output.insert(j, x), perm.insert(j, input.len() as int)),
{
    let n = input.len() as int;
    let input2 = input.push(x);
    let out2 = output.insert(j, x);
    let perm2 = perm.insert(j, n);
    assert forall|m: int| 0 <= m < out2.len() implies lex_le(sort_key(x), sort_key(out2[m])) || m
        <= j by {
        if m > j {
            assert(out2[m] == output[m - 1]);
            lemma_lex_total(sort_key(output[m - 1]), sort_key(x));
        }
    }
    assert forall|i: int| 0 <= i < perm2.len() implies 0 <= #[trigger] perm2[i] < input2.len() by {
        if i < j {
            assert(perm2[i] == perm[i]);
        } else if i > j {
            assert(perm2[i] == perm[i - 1]);
        }
    }
    assert forall|i: int| 0 <= i < perm2.len() implies #[trigger] out2[i] == input2[perm2[i]] by {
        if i < j {
            assert(perm2[i] == perm[i] && out2[i] == output[i]);
        } else if i > j {
            assert(perm2[i] == perm[i - 1] && out2[i] == output[i - 1]);
        }
    }
    assert forall|i: int, k: int|
        0 <= i < perm2.len() && 0 <= k < perm2.len() && i != k implies #[trigger] perm2[i]
        != #[trigger] perm2[k] by {
        let pi = if i < j {
            i
        } else {
            i - 1
        };
        let pk = if k < j {
            k
        } else {
            k - 1
        };
        if i != j && k != j {
            assert(perm2[i] == perm[pi] && perm2[k] == perm[pk]);
        } else if i == j {
            assert(perm2[k] == perm[pk]);
        } else {
            assert(perm2[i] == perm[pi]);
        }
    }
    assert forall|i: int, k: int| 0 <= i < k < out2.len() implies lex_le(
        sort_key(#[trigger] out2[i]),
        sort_key(#[trigger] out2[k]),
    ) by {
        if k < j {
            assert(out2[i] == output[i] && out2[k] == output[k]);
        } else if k == j {
            assert(out2[i] == output[i]);
        } else if i == j {
            assert(out2[k] == output[k - 1]);
            lemma_lex_total(sort_key(output[k - 1]), sort_key(x));
        } else if i < j {
            assert(out2[i] == output[i] && out2[k] == output[k - 1]);
        } else {
            assert(out2[i] == output[i - 1] && out2[k] == output[k - 1]);
        }
    }
    assert forall|i: int, k: int|
        0 <= i < k < out2.len() && sort_key(out2[i]) == sort_key(out2[k]) implies #[trigger] perm2[i]
        < #[trigger] perm2[k] by {
        if k < j {
            assert(out2[i] == output[i] && out2[k] == output[k]);
            assert(perm2[i] == perm[i] && perm2[k] == perm[k]);
        } else if k == j {
            assert(perm2[i] == perm[i]);
        } else if i == j {
            assert(out2[k] == output[k - 1]);
            lemma_lex_refl(sort_key(x));
        } else if i < j {
            assert(out2[i] == output[i] && out2[k] == output[k - 1]);
            assert(perm2[i] == perm[i] && perm2[k] == perm[k - 1]);
        } else {
            assert(out2[i] == output[i - 1] && out2[k] == output[k - 1]);
            assert(perm2[i] == perm[i - 1] && perm2[k] == perm[k - 1]);
        }
    }
}

/// Input position `a` goes before input position `b` in a stable sort: its
/// key is smaller, or the keys are equal and it came first.
spec fn goes_before(input: Seq<AssetEntryView>, a: int, b: int) -> bool {
    (lex_le(sort_key(input[a]), sort_key(input[b])) && sort_key(input[a]) != sort_key(input[b]))
        || (sort_key(input[a]) == sort_key(input[b]) && a < b)
}

/// The positions a stable sort takes its entries from go strictly forward
/// in the sort's order, and each input position is taken.
proof fn lemma_sort_positions(input: Seq<AssetEntryView>, output: Seq<AssetEntryView>, perm: Seq<int>)
    requires
        is_stable_sort(input, output, perm),
    ensures
        forall|i: int, j: int|
            0 <= i < j < perm.len() ==> goes_before(input, #[trigger] perm[i], #[trigger] perm[j]),
        forall|x: int| 0 <= x < input.len() ==> #[trigger] perm.contains(x),
{
    assert forall|i: int, j: int| 0 <= i < j < perm.len() implies goes_before(
        input,
        #[trigger] perm[i],
        #[trigger] perm[j],
    ) by {
        assert(output[i] == input[perm[i]] && output[j] == input[perm[j]]);
        assert(lex_le(sort_key(output[i]), sort_key(output[j])));
    }
    let n = input.len() as int;
    assert(perm.no_duplicates());
    perm.unique_seq_to_set();
    vstd::set_lib::lemma_int_range(0, n);
    assert(perm.to_set().subset_of(vstd::set_lib::set_int_range(0, n))) by {
        assert forall|x: int| perm.to_set().contains(x) implies vstd::set_lib::set_int_range(
            0,
            n,
        ).contains(x) by {
            let i = choose|i: int| 0 <= i < perm.len() && perm[i] == x;
            assert(0 <= perm[i] < n);
        }
    }
    vstd::set_lib::lemma_subset_equality(perm.to_set(), vstd::set_lib::set_int_range(0, n));
    assert forall|x: int| 0 <= x < input.len() implies #[trigger] perm.contains(x) by {
        assert(vstd::set_lib::set_int_range(0, n).contains(x));
        assert(perm.to_set().contains(x));
    }
}

/// `goes_before` never holds both ways.
proof fn lemma_goes_before_asymmetric(input: Seq<AssetEntryView>, a: int, b: int)
    ensures
        !(goes_before(input, a, b) && goes_before(input, b, a)),
{
    if lex_le(sort_key(input[a]), sort_key(input[b])) && lex_le(
        sort_key(input[b]),
        sort_key(input[a]),
    ) {
        lemma_lex_antisym(sort_key(input[a]), sort_key(input[b]));
    }
}

/// A stable sort leaves nothing open: two stable sorts of the same entries
/// by lowercased name are the same sequence, so the listing's order is
/// fully determined.
pub proof fn lemma_stable_sort_unique(
    input: Seq<AssetEntryView>,
    out1: Seq<AssetEntryView>,
    out2: Seq<AssetEntryView>,
)
    requires
        stably_sorted(input, out1),
        stably_sorted(input, out2),
    ensures
        out1 == out2,
{
    let p1 = choose|p: Seq<int>| is_stable_sort(input, out1, p);
    let p2 = choose|p: Seq<int>| is_stable_sort(input, out2, p);
    lemma_sort_positions(input, out1, p1);
    lemma_sort_positions(input, out2, p2);
    let n = input.len() as int;
    assert forall|k: int| 0 <= k < n implies p1[k] == p2[k] by {
        lemma_sort_positions_agree(input, out1, out2, p1, p2, k);
    }
    assert forall|k: int| 0 <= k < n implies out1[k] == out2[k] by {
        assert(out1[k] == input[p1[k]] && out2[k] == input[p2[k]]);
    }
    assert(out1 =~= out2);
}

/// The positions two stable sorts take agree up to and including `k`.
proof fn lemma_sort_positions_agree(
    input: Seq<AssetEntryView>,
    out1: Seq<AssetEntryView>,
    out2: Seq<AssetEntryView>,
    p1: Seq<int>,
    p2: Seq<int>,
    k: int,
)
    requires
        is_stable_sort(input, out1, p1),
        is_stable_sort(input, out2, p2),
        0 <= k < input.len(),
    ensures
        forall|m: int| 0 <= m <= k ==> p1[m] == p2[m],
    decreases k,
{
    if k > 0 {
        lemma_sort_positions_agree(input, out1, out2, p1, p2, k - 1);
    }
    lemma_sort_positions(input, out1, p1);
    lemma_sort_positions(input, out2, p2);
    if p1[k] != p2[k] {
        assert(0 <= p1[k] < input.len());
        assert(p2.contains(p1[k]));
        let m = choose|m: int| 0 <= m < p2.len() && p2[m] == p1[k];
        assert(0 <= p2[k] < input.len());
        assert(p1.contains(p2[k]));
        let m2 = choose|m: int| 0 <= m < p1.len() && p1[m] == p2[k];
        if m < k {
            assert(p1[m] == p2[m]);
        }
        if m2 < k {
            assert(p1[m2] == p2[m2]);
        }
        assert(m > k);
        assert(m2 > k);
        assert(goes_before(input, p2[k], p2[m]));
        assert(goes_before(input, p1[k], p1[m2]));
        lemma_goes_before_asymmetric(input, p1[k], p2[k]);
    }
}

/// Sort entries by lowercased name, keeping the order of equal names.
fn sort_entries(entries: &Vec<AssetEntry>) -> (r: Vec<AssetEntry>)
    ensures
        stably_sorted(
            entries@.map_values(|e: AssetEntry| e@),
            r@.map_values(|e: AssetEntry| e@),
        ),
{
    let ghost input = entries@.map_values(|e: AssetEntry| e@);
    let mut out: Vec<AssetEntry> = Vec::new();
    let mut keys: Vec<Vec<char>> = Vec::new();
    let ghost mut perm: Seq<int> = Seq::empty();
    let mut i: usize = 0;
    proof {
        assert(is_stable_sort(input.take(0), out@.map_values(|e: AssetEntry| e@), perm));
    }
    while i < entries.len()
        invariant
            i <= entries@.len(),
            input == entries@.map_values(|e: AssetEntry| e@),
            keys@.len() == out@.len(),
            forall|m: int| 0 <= m < keys@.len() ==> #[trigger] keys@[m]@ == sort_key(out@[m]@),
            is_stable_sort(input.take(i as int), out@.map_values(|e: AssetEntry| e@), perm),
        decreases entries@.len() - i,
    {
        let e = entries[i].duplicate();
        let lower = to_lowercase(e.name.as_str());
        let key = chars_of(lower.as_str());
        let ghost outv = out@.map_values(|e: AssetEntry| e@);
        let mut j: usize = 0;
        while j < out.len() && lex_le_chars(&keys[j], &key)
            invariant
                j <= out@.len(),
                keys@.len() == out@.len(),
                outv == out@.map_values(|e: AssetEntry| e@),
                forall|m: int| 0 <= m < keys@.len() ==> #[trigger] keys@[m]@ == sort_key(out@[m]@),
                key@ == sort_key(e@),
                forall|m: int| 0 <= m < j ==> lex_le(sort_key(#[trigger] outv[m]), sort_key(e@)),
            decreases out@.len() - j,
        {
            assert(keys@[j as int]@ == sort_key(outv[j as int]));
            j = j + 1;
        }
        proof {
            if j < out@.len() {
                assert(keys@[j as int]@ == sort_key(outv[j as int]));
                assert(!lex_le(sort_key(outv[j as int]), sort_key(e@)));
                assert forall|m: int| j <= m < outv.len() implies !lex_le(
                    sort_key(#[trigger] outv[m]),
                    sort_key(e@),
                ) by {
                    if m > j && lex_le(sort_key(outv[m]), sort_key(e@)) {
                        assert(lex_le(sort_key(outv[j as int]), sort_key(outv[m])));
                        lemma_lex_trans(sort_key(outv[j as int]), sort_key(outv[m]), sort_key(e@));
                    }
                }
            }
            assert(input.take(i + 1) =~= input.take(i as int).push(e@));
            lemma_insert_keeps_stable(input.take(i as int), outv, perm, e@, j as int);
            perm = perm.insert(j as int, i as int);
        }
        let ghost keys_before = keys@;
        out.insert(j, e);
        keys.insert(j, key);
        proof {
            assert(out@.map_values(|e: AssetEntry| e@) =~= outv.insert(j as int, e@));
            assert forall|m: int| 0 <= m < keys@.len() implies #[trigger] keys@[m]@ == sort_key(
                out@[m]@,
            ) by {
                if m < j {
                } else if m == j {
                } else {
                    assert(keys@[m] == keys_before[m - 1]);
                }
            }
        }
        i = i + 1;
    }
    proof {
        assert(input.take(i as int) =~= input);
    }
    out
}

/// The name listed for a path: its file name, or `?`.
pub open spec fn listed_name(path: Seq<char>) -> Seq<char> {
    match file_name_of(path) {
        Some(n) => n,
        None => "?"@,
    }
}

/// Hidden entries are those whose name starts with a dot.
pub open spec fn is_hidden(name: Seq<char>) -> bool {
    "."@.is_prefix_of(name)
}

/// The type listed for a path: directories are directories, files go by
/// their extension.
pub open spec fn listed_type(path: Seq<char>, is_dir: bool) -> AssetType {
    if is_dir {
        AssetType::Directory
    } else {
        match extension_of(path) {
            Some(e) => asset_type_for(lowercase(e)),
            None => AssetType::Unknown,
        }
    }
}

/// Whether a listed path is shown among the directories (`dirs`) or the files.
pub open spec fn shown_as(p: (Seq<char>, bool), dirs: bool) -> bool {
    p.1 == dirs && !is_hidden(listed_name(p.0))
}

/// The entry shown for a listed path.
pub open spec fn entry_of(p: (Seq<char>, bool)) -> AssetEntryView {
    AssetEntryView { name: listed_name(p.0), path: p.0, asset_type: listed_type(p.0, p.1) }
}

/// The entries shown for a directory listing's directories (`dirs`) or
/// files, in listing order, hidden ones left out.
pub open spec fn listed_entries(listing: Seq<(Seq<char>, bool)>, dirs: bool) -> Seq<
    AssetEntryView,
> {
    listing.filter(|p: (Seq<char>, bool)| shown_as(p, dirs)).map_values(
        |p: (Seq<char>, bool)| entry_of(p),
    )
}

/// A listing as plain values: each path with whether it is a directory.
pub open spec fn listing_view(listing: Seq<(String, bool)>) -> Seq<(Seq<char>, bool)> {
    listing.map_values(|p: (String, bool)| (p.0@, p.1))
}

fn entry_for(path: &String, is_dir: bool) -> (r: AssetEntry)
    ensures
        r@ == entry_of((path@, is_dir)),
{
    let name = match file_name(path.as_str()) {
        Some(n) => n,
        None => String::from_str("?"),
    };
    let asset_type = if is_dir {
        AssetType::Directory
    } else {
        match extension(path.as_str()) {
            Some(e) => AssetType::from_extension(e.as_str()),
            None => AssetType::Unknown,
        }
    };
    AssetEntry { name, path: path.clone(), asset_type }
}

/// The entries of a listing's directories or files, in listing order.
fn collect_entries(listing: &Vec<(String, bool)>, dirs: bool) -> (r: Vec<AssetEntry>)
    ensures
        r@.map_values(|e: AssetEntry| e@) == listed_entries(listing_view(listing@), dirs),
{
    let ghost lv = listing_view(listing@);
    let ghost pred = |p: (Seq<char>, bool)| shown_as(p, dirs);
    let ghost f = |p: (Seq<char>, bool)| entry_of(p);
    let mut r: Vec<AssetEntry> = Vec::new();
    let mut i: usize = 0;
    while i < listing.len()
        invariant
            i <= listing@.len(),
            lv == listing_view(listing@),
            pred == (|p: (Seq<char>, bool)| shown_as(p, dirs)),
            f == (|p: (Seq<char>, bool)| entry_of(p)),
            r@.map_values(|e: AssetEntry| e@) == lv.subrange(0, i as int).filter(pred).map_values(f),
        decreases listing@.len() - i,
    {
        let is_dir = listing[i].1;
        let entry = entry_for(&listing[i].0, is_dir);
        let hidden = starts_with(entry.name.as_str(), ".");
        let ghost x = lv[i as int];
        let ghost before = r@;
        proof {
            let s = lv.subrange(0, i as int);
            assert(lv.subrange(0, i + 1) =~= s.push(x));
            s.lemma_filter_push(x, pred);
            assert(pred(x) == (is_dir == dirs && !hidden));
            assert(s.filter(pred).push(x).map_values(f) =~= s.filter(pred).map_values(f).push(
                entry@,
            ));
        }
        if is_dir == dirs && !hidden {
            r.push(entry);
            assert(r@.map_values(|e: AssetEntry| e@) =~= before.map_values(|e: AssetEntry| e@).push(
                entry@,
            ));
        }
        i = i + 1;
    }
    assert(lv.subrange(0, i as int) =~= lv);
    r
}

/// Whether an entry's name passes the browser's name filter: an empty
/// filter passes every name, another one the names that hold it, letter
/// case ignored.
pub open spec fn name_passes_filter(filter: Seq<char>, name: Seq<char>) -> bool {
    filter.len() == 0 || contains_seq(lowercase(name), lowercase(filter))
}

/// The asset browser: the project root, the directory shown, and its entries.
pub struct AssetBrowser {
    /// Root directory.
    root: String,
    /// Current directory.
    current_path: String,
    /// Listed entries.
    entries: Vec<AssetEntry>,
    /// Selected entry index.
    selected: Option<usize>,
    /// Search filter.
    filter: String,
    /// Whether the entries must be listed again.
    needs_refresh: bool,
}

/// The abstract browser state.
pub struct AssetBrowserView {
    pub root: Seq<char>,
    pub current_path: Seq<char>,
    pub entries: Seq<AssetEntryView>,
    pub selected: Option<usize>,
    pub filter: Seq<char>,
    pub needs_refresh: bool,
}

impl View for AssetBrowser {
    type V = AssetBrowserView;

    closed spec fn view(&self) -> AssetBrowserView {
        AssetBrowserView {
            root: self.root@,
            current_path: self.current_path@,
            entries: self.entries@.map_values(|e: AssetEntry| e@),
            selected: self.selected,
            filter: self.filter@,
            needs_refresh: self.needs_refresh,
        }
    }
}

impl AssetBrowser {
    /// A browser at the project root, waiting for its first listing.
    pub fn new(root: String) -> (r: Self)
        ensures
            r@.root == root@,
            r@.current_path == root@,
            r@.entries.len() == 0,
            r@.selected is None,
            r@.filter.len() == 0,
            r@.needs_refresh,
    {
        let current_path = root.clone();
        Self {
            root,
            current_path,
            entries: Vec::new(),
            selected: None,
            filter: String::new(),
            needs_refresh: true,
        }
    }

    /// Set the root directory, and show it.
    pub fn set_root(&mut self, root: String)
        ensures
            final(self)@ == (AssetBrowserView {
                root: root@,
                current_path: root@,
                needs_refresh: true,
                ..old(self)@
            }),
    {
        self.root = root.clone();
        self.current_path = root;
        self.needs_refresh = true;
    }

    /// Show another directory.
    pub fn navigate_to(&mut self, path: String)
        ensures
            final(self)@ == (AssetBrowserView {
                current_path: path@,
                selected: None,
                needs_refresh: true,
                ..old(self)@
            }),
    {
        self.current_path = path;
        self.selected = None;
        self.needs_refresh = true;
    }

    /// Show the parent directory, unless the root is shown or there is no parent.
    pub fn go_up(&mut self)
        ensures
            final(self)@ == (if !same_path(old(self)@.current_path, old(self)@.root)
                && parent_of(old(self)@.current_path) is Some {
                AssetBrowserView {
                    current_path: parent_of(old(self)@.current_path)->0,
                    selected: None,
                    needs_refresh: true,
                    ..old(self)@
                }
            } else {
                old(self)@
            }),
    {
        if !paths_equal(self.current_path.as_str(), self.root.as_str()) {
            match parent(self.current_path.as_str()) {
                Some(p) => {
                    self.current_path = p;
                    self.selected = None;
                    self.needs_refresh = true;
                },
                None => {},
            }
        }
    }

    /// Replace the entries by a fresh listing of the current directory (each
    /// path with whether it is a directory): hidden entries are left out,
    /// directories come first, and each group is sorted by lowercased name,
    /// names that compare equal keeping the listing's order.
    pub fn apply_listing(&mut self, listing: Vec<(String, bool)>)
        ensures
            exists|d: Seq<AssetEntryView>, f: Seq<AssetEntryView>|
                stably_sorted(listed_entries(listing_view(listing@), true), d) && stably_sorted(
                    listed_entries(listing_view(listing@), false),
                    f,
                ) && final(self)@.entries == d + f,
            final(self)@ == (AssetBrowserView {
                entries: final(self)@.entries,
                needs_refresh: false,
                ..old(self)@
            }),
    {
        let dirs = collect_entries(&listing, true);
        let files = collect_entries(&listing, false);
        let mut sorted_dirs = sort_entries(&dirs);
        let mut sorted_files = sort_entries(&files);
        let ghost d = sorted_dirs@.map_values(|e: AssetEntry| e@);
        let ghost f = sorted_files@.map_values(|e: AssetEntry| e@);
        sorted_dirs.append(&mut sorted_files);
        self.entries = sorted_dirs;
        self.needs_refresh = false;
        assert(self@.entries =~= d + f);
    }

    /// The current directory.
    pub fn current_path(&self) -> (r: &str)
        ensures
            r@ == self@.current_path,
    {
        self.current_path.as_str()
    }

    /// The listed entries.
    pub fn entries(&self) -> (r: &[AssetEntry])
        ensures
            r@.map_values(|e: AssetEntry| e@) == self@.entries,
    {
        self.entries.as_slice()
    }

    /// Whether the entries must be listed again.
    pub fn needs_refresh(&self) -> (b: bool)
        ensures
            b == self@.needs_refresh,
    {
        self.needs_refresh
    }

    /// Replace the name filter.
    pub fn set_filter(&mut self, filter: String)
        ensures
            final(self)@ == (AssetBrowserView { filter: filter@, ..old(self)@ }),
    {
        self.filter = filter;
    }

    /// The name filter.
    pub fn filter(&self) -> (r: &str)
        ensures
            r@ == self@.filter,
    {
        self.filter.as_str()
    }

    /// Select the entry at `index`.
    pub fn select(&mut self, index: usize)
        ensures
            final(self)@ == (AssetBrowserView { selected: Some(index), ..old(self)@ }),
    {
        self.selected = Some(index);
    }

    /// The selected entry's position, if any.
    pub fn selected(&self) -> (r: Option<usize>)
        ensures
            r == self@.selected,
    {
        self.selected
    }

    /// The positions of the entries that the name filter shows, in order:
    /// all of them when the filter is empty, else those whose name holds the
    /// filter, letter case ignored.
    pub fn visible_entries(&self) -> (r: Vec<usize>)
        ensures
            r@.map_values(|i: usize| i as int) == Seq::new(self@.entries.len(), |i: int| i).filter(
                |i: int| name_passes_filter(self@.filter, self@.entries[i].name),
            ),
    {
        let ghost v = self@;
        let ghost idx = Seq::new(v.entries.len(), |i: int| i);
        let ghost pred = |i: int| name_passes_filter(v.filter, v.entries[i].name);
        let no_filter = self.filter.as_str().unicode_len() == 0;
        let lower_filter = to_lowercase(self.filter.as_str());
        let mut r: Vec<usize> = Vec::new();
        let mut i: usize = 0;
        while i < self.entries.len()
            invariant
                v == self@,
                idx == Seq::new(v.entries.len(), |i: int| i),
                pred == (|i: int| name_passes_filter(v.filter, v.entries[i].name)),
                no_filter == (v.filter.len() == 0),
                lower_filter@ == lowercase(v.filter),
                i <= self.entries@.len(),
                v.entries.len() == self.entries@.len(),
                r@.map_values(|j: usize| j as int) == idx.take(i as int).filter(pred),
            decreases self.entries@.len() - i,
        {
            let shown = no_filter || {
                let lower = to_lowercase(self.entries[i].name.as_str());
                contains_str(lower.as_str(), lower_filter.as_str())
            };
            proof {
                assert(v.entries[i as int] == self.entries@[i as int]@);
                assert(pred(i as int) == shown);
                assert(idx.take(i + 1) =~= idx.take(i as int).push(i as int));
                idx.take(i as int).lemma_filter_push(i as int, pred);
            }
            let ghost before = r@;
            if shown {
                r.push(i);
                assert(r@.map_values(|j: usize| j as int) =~= before.map_values(
                    |j: usize| j as int,
                ).push(i as int));
            }
            i = i + 1;
        }
        assert(idx.take(i as int) =~= idx);
        r
    }

    /// Open the entry at `index` (a double click): a directory is shown in
    /// its place, a scene or a prefab is handed to the caller to open or
    /// load, and other entries do nothing.
    pub fn open_entry(&mut self, index: usize) -> (r: AssetAction)
        requires
            index < old(self)@.entries.len(),
        ensures
            ({
                let e = old(self)@.entries[index as int];
                match e.asset_type {
                    AssetType::Directory => r is NoAction && final(self)@ == (AssetBrowserView {
                        current_path: e.path,
                        selected: None,
                        needs_refresh: true,
                        ..old(self)@
                    }),
                    AssetType::Scene => (r matches AssetAction::OpenScene(p) && p@ == e.path)
                        && final(self)@ == old(self)@,
                    AssetType::Prefab => (r matches AssetAction::LoadPrefab(p) && p@ == e.path)
                        && final(self)@ == old(self)@,
                    _ => r is NoAction && final(self)@ == old(self)@,
                }
            }),
    {
        proof {
            assert(self@.entries[index as int] == self.entries@[index as int]@);
        }
        let path = self.entries[index].path.clone();
        match self.entries[index].asset_type {
            AssetType::Directory => {
                self.navigate_to(path);
                AssetAction::NoAction
            },
            AssetType::Scene => AssetAction::OpenScene(path),
            AssetType::Prefab => AssetAction::LoadPrefab(path),
            _ => AssetAction::NoAction,
        }
    }

    /// Ask for a fresh listing.
    pub fn request_refresh(&mut self)
        ensures
            final(self)@ == (AssetBrowserView { needs_refresh: true, ..old(self)@ }),
    {
        self.needs_refresh = true;
    }
}

} // verus!
