//! The durable set of skipped thread identifiers, and the text it is kept in.
use vstd::prelude::*;
use vstd::string::*;

verus! {

/// The characters of each string of a list.
pub open spec fn strings_view(v: Seq<String>) -> Seq<Seq<char>> {
    v.map_values(|s: String| s@)
}

/// The strings that a JSON text holding an array of strings lists, in order, or `None`
/// where the text is not such an array.
pub uninterp spec fn json_string_list(text: Seq<char>) -> Option<Seq<Seq<char>>>;

/// The JSON text of an array of strings.
pub uninterp spec fn json_of_strings(items: Seq<Seq<char>>) -> Seq<char>;

/// Relies on `serde_json::from_str::<Vec<String>>`: it accepts exactly the JSON arrays of
/// strings, and which strings it returns depends on the text alone.
#[verifier::external_body]
fn decode_strings(text: &str) -> (r: Option<Vec<String>>)
    ensures
        r is Some <==> json_string_list(text@) is Some,
        r matches Some(v) ==> json_string_list(text@) == Some(strings_view(v@)),
{
    serde_json::from_str::<Vec<String>>(text).ok()
}

/// Relies on `serde_json::to_string` on a `Vec<String>`: it fails only where a
/// `Serialize` impl fails or a map has keys that are not strings, neither of which a
/// list of strings has, and the text depends on the strings alone.
#[verifier::external_body]
fn encode_strings(items: &Vec<String>) -> (r: Option<String>)
    ensures
        r is Some,
        r matches Some(t) ==> t@ == json_of_strings(strings_view(items@)),
{
    serde_json::to_string(items).ok()
}

/// Why the skip file could not be read.
#[derive(Clone, Copy, Debug, PartialEq, Eq, Structural)]
pub enum SkipError {
    /// The file is no JSON array of strings.
    Malformed,
}

/// The identifiers of skipped threads. Only membership matters; the identifiers are
/// kept once each, in the order in which they were added.
#[derive(Clone, Debug)]
pub struct SkipStore {
    ids: Vec<String>,
}

impl View for SkipStore {
    type V = Set<Seq<char>>;

    closed spec fn view(&self) -> Set<Seq<char>> {
        strings_view(self.ids@).to_set()
    }
}

proof fn lemma_remove_distinct(s: Seq<Seq<char>>, k: int)
    requires
        s.no_duplicates(),
        0 <= k < s.len(),
    ensures
        s.remove(k).no_duplicates(),
        s.remove(k).to_set() =~= s.to_set().remove(s[k]),
{
    let after = s.remove(k);
    assert forall|i: int, j: int|
        0 <= i < after.len() && 0 <= j < after.len() && i != j implies after[i] != after[j] by {
        let bi = if i < k { i } else { i + 1 };
        let bj = if j < k { j } else { j + 1 };
        assert(after[i] == s[bi] && after[j] == s[bj]);
    }
    assert forall|x: Seq<char>| after.contains(x) <==> (s.contains(x) && x != s[k]) by {
        if after.contains(x) {
            let j = choose|j: int| 0 <= j < after.len() && after[j] == x;
            let bj = if j < k { j } else { j + 1 };
            assert(s[bj] == x);
        }
        if s.contains(x) && x != s[k] {
            let j = choose|j: int| 0 <= j < s.len() && s[j] == x;
            if j < k {
                assert(after[j] == x);
            } else {
                assert(after[j - 1] == x);
            }
        }
    }
}

impl SkipStore {
    /// Each identifier is held once.
    pub closed spec fn wf(&self) -> bool {
        strings_view(self.ids@).no_duplicates()
    }

    /// The identifiers in the order in which they are written out.
    pub closed spec fn listed(&self) -> Seq<Seq<char>> {
        strings_view(self.ids@)
    }

    pub fn new() -> (r: SkipStore)
        ensures
            r.wf(),
            r@ == Set::<Seq<char>>::empty(),
            r.listed() == Seq::<Seq<char>>::empty(),
    {
        let r = SkipStore { ids: Vec::new() };
        assert(strings_view(r.ids@) =~= Seq::<Seq<char>>::empty());
        r
    }

    pub fn contains(&self, id: &String) -> (r: bool)
        ensures
            r == self@.contains(id@),
    {
        let mut k: usize = 0;
        while k < self.ids.len()
            invariant
                k <= self.ids@.len(),
                forall|j: int| 0 <= j < k ==> self.ids@[j]@ != id@,
            decreases self.ids@.len() - k,
        {
            if self.ids[k] == *id {
                assert(strings_view(self.ids@)[k as int] == id@);
                return true;
            }
            k = k + 1;
        }
        assert(!strings_view(self.ids@).contains(id@)) by {
            if strings_view(self.ids@).contains(id@) {
                let j = choose|j: int| 0 <= j < self.ids@.len() && strings_view(self.ids@)[j] == id@;
                assert(self.ids@[j]@ == id@);
            }
        }
        false
    }

    /// Adds an identifier; returns whether the set changed.
    pub fn add(&mut self, id: String) -> (changed: bool)
        requires
            old(self).wf(),
        ensures
            final(self).wf(),
            final(self)@ == old(self)@.insert(id@),
            changed == !old(self)@.contains(id@),
    {
        if self.contains(&id) {
            assert(self@.insert(id@) =~= self@);
            false
        } else {
            let ghost before = strings_view(self.ids@);
            self.ids.push(id);
            assert(strings_view(self.ids@) =~= before.push(id@));
            proof {
                before.lemma_push_to_set_commute(id@);
                assert(!before.contains(id@));
                assert forall|i: int, j: int|
                    0 <= i < before.len() + 1 && 0 <= j < before.len() + 1 && i != j implies
                    #[trigger] before.push(id@)[i] != #[trigger] before.push(id@)[j] by {
                    if i == before.len() {
                        assert(before[j] == before.push(id@)[j]);
                    } else if j == before.len() {
                        assert(before[i] == before.push(id@)[i]);
                    }
                }
            }
            true
        }
    }

    /// Removes an identifier; returns whether the set changed.
    pub fn remove(&mut self, id: &String) -> (changed: bool)
        requires
            old(self).wf(),
        ensures
            final(self).wf(),
            final(self)@ == old(self)@.remove(id@),
            changed == old(self)@.contains(id@),
    {
        let mut k: usize = 0;
        while k < self.ids.len()
            invariant
                *self == *old(self),
                self.wf(),
                k <= self.ids@.len(),
                forall|j: int| 0 <= j < k ==> self.ids@[j]@ != id@,
            decreases self.ids@.len() - k,
        {
            if self.ids[k] == *id {
                let ghost before = strings_view(self.ids@);
                self.ids.remove(k);
                proof {
                    assert(strings_view(self.ids@) =~= before.remove(k as int));
                    lemma_remove_distinct(before, k as int);
                    assert(before[k as int] == id@);
                }
                return true;
            }
            k = k + 1;
        }
        assert(!self@.contains(id@)) by {
            if strings_view(self.ids@).contains(id@) {
                let j = choose|j: int| 0 <= j < self.ids@.len() && strings_view(self.ids@)[j] == id@;
                assert(self.ids@[j]@ == id@);
            }
        }
        assert(self@.remove(id@) =~= self@);
        false
    }

    /// Builds the set of the listed identifiers; a repeated one is kept once.
    pub fn from_list(items: Vec<String>) -> (r: SkipStore)
        ensures
            r.wf(),
            r@ == strings_view(items@).to_set(),
    {
        let mut r = SkipStore::new();
        let mut k: usize = 0;
        while k < items.len()
            invariant
                k <= items@.len(),
                r.wf(),
                r@ == strings_view(items@.subrange(0, k as int)).to_set(),
            decreases items@.len() - k,
        {
            let ghost prefix = strings_view(items@.subrange(0, k as int));
            r.add(items[k].clone());
            assert(strings_view(items@.subrange(0, k + 1)) =~= prefix.push(items@[k as int]@));
            proof {
                prefix.lemma_push_to_set_commute(items@[k as int]@);
            }
            k = k + 1;
        }
        assert(items@.subrange(0, k as int) =~= items@);
        r
    }

    /// Reads the skip file's contents; `None` stands for a file that does not exist,
    /// which holds no identifier.
    pub fn load(contents: Option<&str>) -> (r: Result<SkipStore, SkipError>)
        ensures
            r matches Ok(s) ==> s.wf(),
            contents is None ==> (r matches Ok(s) && s@ == Set::<Seq<char>>::empty()),
            contents matches Some(t) ==> match json_string_list(t@) {
                None => r == Err::<SkipStore, SkipError>(SkipError::Malformed),
                Some(l) => r matches Ok(s) && s@ == l.to_set(),
            },
    {
        match contents {
            None => Ok(SkipStore::new()),
            Some(t) => match decode_strings(t) {
                None => Err(SkipError::Malformed),
                Some(items) => Ok(SkipStore::from_list(items)),
            },
        }
    }

    /// The JSON array that the skip file holds.
    pub fn to_json(&self) -> (r: Option<String>)
        ensures
            r is Some,
            r matches Some(t) ==> t@ == json_of_strings(self.listed()),
    {
        encode_strings(&self.ids)
    }
}

/// Where the skip file lives: under the state directory `state_home` where that is
/// given and not empty, else under `home`'s `.local/state`; `None` where neither is known.
pub open spec fn skip_file_location(state_home: Option<Seq<char>>, home: Option<Seq<char>>) -> Option<
    Seq<char>,
> {
    if state_home is Some && state_home->0.len() > 0 {
        Some(state_home->0 + "/prview/skipped.json"@)
    } else if home is Some {
        Some(home->0 + "/.local/state/prview/skipped.json"@)
    } else {
        None
    }
}

/// The characters of an optional text.
pub open spec fn text_of(o: Option<&str>) -> Option<Seq<char>> {
    match o {
        Some(t) => Some(t@),
        None => None,
    }
}

/// Finds the skip file from the values of `$XDG_STATE_HOME` and `$HOME`.
pub fn skip_file_path(state_home: Option<&str>, home: Option<&str>) -> (r: Option<String>)
    ensures
        r is Some <==> skip_file_location(text_of(state_home), text_of(home)) is Some,
        r matches Some(p) ==> Some(p@) == skip_file_location(
            text_of(state_home),
            text_of(home),
        ),
{
    if let Some(x) = state_home {
        if x.unicode_len() > 0 {
            let mut p = String::from_str(x);
            p.append("/prview/skipped.json");
            return Some(p);
        }
    }
    match home {
        Some(h) => {
            let mut p = String::from_str(h);
            p.append("/.local/state/prview/skipped.json");
            Some(p)
        },
        None => None,
    }
}

} // verus!
