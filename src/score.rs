use vstd::prelude::*;

use crate::engine::{request_readable, request_within_limits, score_best, score_view, view_of_result};
use crate::tile::InvalidTileCode;
use crate::{ScoreRequest, ScoreResult};

verus! {

/// Scores a completed hand; see `score_best`.
pub fn score(req: &ScoreRequest) -> (r: Result<ScoreResult, InvalidTileCode>)
    requires
        request_within_limits(*req),
    ensures
        match r {
            Ok(res) => request_readable(*req) && view_of_result(res) == score_view(*req),
            Err(_) => !request_readable(*req),
        },
{
    score_best(req)
}

} // verus!
