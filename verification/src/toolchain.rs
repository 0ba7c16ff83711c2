use vstd::prelude::*;
use vstd::string::*;

verus! {

/// Relies on rand::thread_rng for the generator and on rand::Rng::gen_range
/// over the half-open range `0..len`: gen_range panics only on an empty
/// range, which the precondition rules out, and returns a value inside it.
#[verifier::external_body]
fn random_index(len: usize) -> (r: usize)
    requires
        len > 0,
    ensures
        r < len,
{
    rand::Rng::gen_range(&mut rand::thread_rng(), 0..len)
}

/// The toolchain versions a build may select among.
pub fn toolchain_candidates() -> (r: Vec<String>)
    ensures
        r@.len() == 3,
        r@[0]@ == "1.79.0"@,
        r@[1]@ == "1.78.0"@,
        r@[2]@ == "1.77.2"@,
{
    let mut v: Vec<String> = Vec::new();
    v.push(String::from_str("1.79.0"));
    v.push(String::from_str("1.78.0"));
    v.push(String::from_str("1.77.2"));
    v
}

/// Selects one of the given toolchain versions; which one is left open.
pub fn select_toolchain(versions: &Vec<String>) -> (r: Option<String>)
    ensures
        match r {
            Some(v) => exists|i: int|
                0 <= i < versions@.len() && v@ == (#[trigger] versions@[i])@,
            None => versions@.len() == 0,
        },
{
    if versions.len() == 0 {
        None
    } else {
        let i = random_index(versions.len());
        let v = versions[i].clone();
        proof {
            assert(v@ == versions@[i as int]@);
        }
        Some(v)
    }
}

/// The toolchain override for one build: one of the built-in candidates.
pub fn random_toolchain() -> (r: String)
    ensures
        r@ == "1.79.0"@ || r@ == "1.78.0"@ || r@ == "1.77.2"@,
{
    let candidates = toolchain_candidates();
    match select_toolchain(&candidates) {
        Some(v) => {
            proof {
                let i = choose|i: int|
                    0 <= i < candidates@.len() && v@ == candidates@[i]@;
            }
            v
        },
        None => {
            return vstd::pervasive::unreached();
        },
    }
}

} // verus!
