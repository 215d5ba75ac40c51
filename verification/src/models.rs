//! The selection of a model for a task.

use vstd::prelude::*;

verus! {

/// What is known of a model when one is selected for a task.
#[derive(Clone, Copy, Debug, PartialEq, Eq, Structural)]
pub struct Candidate {
    /// Whether the model can be used now
    pub available: bool,
    /// Whether the model supports the task
    pub supports_task: bool,
    /// Whether the id of the model matches the pattern of the task; true
    /// where the task has no pattern
    pub matches: bool,
    /// Whether the model is a router, which selects a model itself
    pub is_router: bool,
    /// The score of the model
    pub score: u32,
    /// The rank of the type of the model
    pub type_rank: u8,
}

impl Candidate {
    /// The model can take the task.
    pub open spec fn fits(self) -> bool {
        self.available && self.supports_task && self.matches
    }

    /// Whether the model can take the task.
    pub fn fits_task(&self) -> (b: bool)
        ensures
            b == self.fits(),
    {
        self.available && self.supports_task && self.matches
    }

    /// The model is at least as good as `other`: its score is higher, or
    /// the same with a type that ranks at least as high.
    pub open spec fn at_least(self, other: Candidate) -> bool {
        self.score > other.score || (self.score == other.score && self.type_rank
            >= other.type_rank)
    }
}

/// Why no model was selected.
#[derive(Clone, Copy, Debug, PartialEq, Eq, Structural)]
pub enum SelectError {
    /// No model is available at all
    NoneAvailable,
    /// No available model supports the task and matches its pattern
    NoneSupports,
}

/// `i` is the place of the first available router.
pub open spec fn first_router(models: Seq<Candidate>, i: int) -> bool {
    &&& 0 <= i < models.len()
    &&& models[i].available && models[i].is_router
    &&& forall|k: int| 0 <= k < i ==> !((#[trigger] models[k]).available && models[k].is_router)
}

/// `i` is the place of the best model that can take the task: no such
/// model is better, and of several that are as good it is the last.
pub open spec fn best_fit(models: Seq<Candidate>, i: int) -> bool {
    &&& 0 <= i < models.len()
    &&& models[i].fits()
    &&& forall|k: int|
        0 <= k < models.len() && (#[trigger] models[k]).fits() ==> models[i].at_least(models[k])
    &&& forall|k: int|
        i < k < models.len() && (#[trigger] models[k]).fits() ==> !models[k].at_least(models[i])
}

/// Select a model for a task that asks for no least score.
///
/// There has to be an available model. Where the task names no models and
/// a router is available, the first router is selected. Otherwise the best
/// of the models that can take the task is selected; there has to be one.
pub fn select(models: &Vec<Candidate>, has_pattern: bool) -> (selected: Result<usize, SelectError>)
    ensures
        match selected {
            Ok(i) => (!has_pattern && first_router(models@, i as int)) || ((has_pattern
                || forall|k: int|
                0 <= k < models.len() ==> !((#[trigger] models[k]).available
                    && models[k].is_router)) && best_fit(models@, i as int)),
            Err(SelectError::NoneAvailable) => forall|k: int|
                0 <= k < models.len() ==> !(#[trigger] models[k]).available,
            Err(SelectError::NoneSupports) => (exists|k: int|
                0 <= k < models.len() && (#[trigger] models[k]).available) && (has_pattern
                || forall|k: int|
                0 <= k < models.len() ==> !((#[trigger] models[k]).available
                    && models[k].is_router)) && forall|k: int|
                0 <= k < models.len() ==> !(#[trigger] models[k]).fits(),
        },
{
    let n = models.len();
    let mut any = false;
    let mut router: Option<usize> = None;
    let mut best: Option<usize> = None;
    let mut i: usize = 0;
    while i < n
        invariant
            n == models.len(),
            i <= n,
            any <==> exists|k: int| 0 <= k < i && (#[trigger] models[k]).available,
            match router {
                Some(r) => r < i && first_router(models@, r as int),
                None => forall|k: int|
                    0 <= k < i ==> !((#[trigger] models[k]).available && models[k].is_router),
            },
            match best {
                Some(b) => {
                    &&& b < i
                    &&& models[b as int].fits()
                    &&& forall|k: int|
                        0 <= k < i && (#[trigger] models[k]).fits() ==> models[b as int].at_least(
                            models[k],
                        )
                    &&& forall|k: int|
                        b < k < i && (#[trigger] models[k]).fits() ==> !models[k].at_least(
                            models[b as int],
                        )
                },
                None => forall|k: int| 0 <= k < i ==> !(#[trigger] models[k]).fits(),
            },
        decreases n - i,
    {
        let model = models[i];
        if model.available {
            any = true;
            assert(models[i as int].available);
            if model.is_router && router.is_none() {
                router = Some(i);
            }
            if model.supports_task && model.matches {
                let better = match best {
                    Some(b) => {
                        let held = models[b];
                        model.score > held.score || (model.score == held.score && model.type_rank
                            >= held.type_rank)
                    },
                    None => true,
                };
                if better {
                    best = Some(i);
                }
            }
        }
        i += 1;
    }
    if !any {
        return Err(SelectError::NoneAvailable);
    }
    if !has_pattern {
        if let Some(r) = router {
            return Ok(r);
        }
    }
    match best {
        Some(b) => Ok(b),
        None => Err(SelectError::NoneSupports),
    }
}

} // verus!
