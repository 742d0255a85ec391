//! The service-facing error taxonomy and its HTTP status mapping.

use vstd::prelude::*;

verus! {

/// An error a request or a session surfaces to the enclosing service.
#[derive(PartialEq, Eq, Debug)]
pub enum Error {
    /// Authentication required.
    Unauthorized,
    /// The user may not perform that action.
    Forbidden,
    /// The request path was not found.
    NotFound,
    /// The request body was ill-formed: per offending key, its messages in
    /// arrival order; keys in first-appearance order.
    UnprocessableEntity { errors: Vec<(String, Vec<String>)> },
    /// An unexpected failure, carrying its description.
    Unexpected(String),
}

/// The index of the first entry of `acc` at or past `j` whose key is `k`,
/// or -1 when there is none.
pub open spec fn key_index(acc: Seq<(Seq<char>, Seq<Seq<char>>)>, k: Seq<char>, j: nat) -> int
    decreases acc.len() - j,
{
    if j >= acc.len() {
        -1
    } else if acc[j as int].0 == k {
        j as int
    } else {
        key_index(acc, k, j + 1)
    }
}

/// Grouping one more message under its key: appended to the key's entry if
/// the key is present, else a new entry at the end.
pub open spec fn spec_add_error(
    acc: Seq<(Seq<char>, Seq<Seq<char>>)>,
    k: Seq<char>,
    v: Seq<char>,
) -> Seq<(Seq<char>, Seq<Seq<char>>)> {
    let j = key_index(acc, k, 0);
    if j >= 0 {
        acc.update(j, (acc[j].0, acc[j].1.push(v)))
    } else {
        acc.push((k, seq![v]))
    }
}

/// All the (key, message) pairs grouped, in order.
pub open spec fn spec_group(pairs: Seq<(Seq<char>, Seq<char>)>) -> Seq<
    (Seq<char>, Seq<Seq<char>>),
>
    decreases pairs.len(),
{
    if pairs.len() == 0 {
        Seq::empty()
    } else {
        spec_add_error(spec_group(pairs.drop_last()), pairs.last().0, pairs.last().1)
    }
}

fn find_key(map: &Vec<(String, Vec<String>)>, key: &String) -> (r: Option<usize>)
    ensures
        match r {
            Some(j) => j < map@.len() && key_index(map.deep_view(), key@, 0) == j,
            None => key_index(map.deep_view(), key@, 0) == -1,
        },
{
    let mut j: usize = 0;
    while j < map.len()
        invariant
            j <= map@.len(),
            key_index(map.deep_view(), key@, 0) == key_index(map.deep_view(), key@, j as nat),
        decreases map@.len() - j,
    {
        if map[j].0 == *key {
            proof {
                assert(map.deep_view()[j as int].0 == map@[j as int].0@);
            }
            return Some(j);
        }
        proof {
            assert(map.deep_view()[j as int].0 == map@[j as int].0@);
        }
        j += 1;
    }
    None
}

impl Error {
    /// The HTTP status this error maps to.
    pub open spec fn spec_status_code(&self) -> u16 {
        match self {
            Error::Unauthorized => 401,
            Error::Forbidden => 403,
            Error::NotFound => 404,
            Error::UnprocessableEntity { .. } => 422,
            Error::Unexpected(_) => 500,
        }
    }

    /// The HTTP status this error maps to.
    pub fn status_code(&self) -> (c: u16)
        ensures
            c == self.spec_status_code(),
    {
        match self {
            Error::Unauthorized => 401,
            Error::Forbidden => 403,
            Error::NotFound => 404,
            Error::UnprocessableEntity { .. } => 422,
            Error::Unexpected(_) => 500,
        }
    }

    /// Gather (key, message) pairs into an `UnprocessableEntity`, messages
    /// of equal keys grouped in arrival order, keys in first-appearance
    /// order: exactly `spec_group` of the pairs.
    pub fn unprocessable_entity(errors: Vec<(String, String)>) -> (r: Error)
        ensures
            (r matches Error::UnprocessableEntity { errors: m } && m.deep_view() == spec_group(
                errors.deep_view(),
            )),
    {
        let mut map: Vec<(String, Vec<String>)> = Vec::new();
        let mut i: usize = 0;
        while i < errors.len()
            invariant
                i <= errors@.len(),
                map.deep_view() == spec_group(errors.deep_view().take(i as int)),
            decreases errors@.len() - i,
        {
            let key = errors[i].0.clone();
            let val = errors[i].1.clone();
            let ghost before = map.deep_view();
            match find_key(&map, &key) {
                Some(j) => {
                    let (k0, mut vs) = map.remove(j);
                    let ghost vs_before = vs.deep_view();
                    vs.push(val);
                    map.insert(j, (k0, vs));
                    proof {
                        assert(vs.deep_view() =~= vs_before.push(val@));
                        assert(map.deep_view() =~~= spec_add_error(before, key@, val@));
                    }
                },
                None => {
                    let mut vs: Vec<String> = Vec::new();
                    vs.push(val);
                    map.push((key, vs));
                    proof {
                        assert(vs.deep_view() =~= seq![val@]);
                        assert(map.deep_view() =~~= spec_add_error(before, key@, val@));
                    }
                },
            }
            proof {
                let dv = errors.deep_view();
                assert(dv[i as int] == (errors@[i as int].0@, errors@[i as int].1@));
                assert(dv.take(i + 1).drop_last() =~= dv.take(i as int));
                assert(dv.take(i + 1).last() == dv[i as int]);
            }
            i += 1;
        }
        proof {
            assert(errors.deep_view().take(i as int) =~= errors.deep_view());
        }
        Error::UnprocessableEntity { errors: map }
    }
}

} // verus!
