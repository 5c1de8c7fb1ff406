//! Auto-rotation: deciding which wallpaper comes next. The three modes
//! pick the newest catalog entry, a random favorite, or a random entry
//! of the whole catalog. The fetches themselves happen outside the
//! crate; the decision, including the random pick, is made here.

use vstd::prelude::*;
use crate::config::{MODE_FAVORITES, MODE_NEWEST};

verus! {

/// What the next rotation step is to fetch: the newest entry, one
/// favorite by identifier, or a random entry — for which the caller
/// first asks the catalog how many entries it has and then draws the
/// skip with `random_skip`.
pub enum RotationPlan {
    Newest,
    Favorite(String),
    Random,
}

/// Relies on rand::random: draws a machine word from the thread-local
/// generator. Nothing can be promised of a random value.
#[verifier::external_body]
fn draw_random() -> u64 {
    rand::random()
}

/// Decides the next rotation step from the configured mode. In
/// favorites mode one identifier of the like-set is drawn — any of them
/// may come out, and whichever does is one of the like-set.
pub fn plan_rotation(mode: u8, likes: &Vec<String>) -> (r: RotationPlan)
    requires
        mode == 0 || mode == 1 || mode == 2,
        mode == 1 ==> likes@.len() > 0,
    ensures
        mode == 0 ==> r is Newest,
        mode == 1 ==> (r matches RotationPlan::Favorite(id) && (exists|i: int|
            0 <= i < likes@.len() && id@ == likes.deep_view()[i])),
        mode == 2 ==> r is Random,
{
    if mode == MODE_NEWEST {
        RotationPlan::Newest
    } else if mode == MODE_FAVORITES {
        let n = draw_random();
        let idx = (n % (likes.len() as u64)) as usize;
        let id = likes[idx].clone();
        proof {
            assert(id@ == likes.deep_view()[idx as int]);
        }
        RotationPlan::Favorite(id)
    } else {
        RotationPlan::Random
    }
}

/// Draws how many entries to skip to land on a uniform random one of
/// `count`: whatever is drawn, the skip stays below `count`.
pub fn random_skip(count: usize) -> (r: usize)
    requires
        count > 0,
    ensures
        r < count,
{
    let n = draw_random();
    (n % (count as u64)) as usize
}

} // verus!
