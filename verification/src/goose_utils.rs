//! The recipe-runner invocation an initialization builds: which recipe to
//! run and with which parameters. Running it is the caller's business.

use vstd::prelude::*;

verus! {

/// Where the recipe comes from: the tool's bundled default, or a custom one
/// found in the repository.
pub enum RecipeSource {
    Default,
    Custom { recipe_path: String },
}

/// One planned recipe run.
pub struct RunRecipeConfig {
    pub recipe_source: RecipeSource,
    pub params: Vec<(String, String)>,
}

/// The argument list of one recipe run: `run --recipe <path>`, then
/// `--params key=value` per parameter, in order.
pub open spec fn spec_recipe_args(
    recipe_path: Seq<char>,
    params: Seq<(Seq<char>, Seq<char>)>,
) -> Seq<Seq<char>>
    decreases params.len(),
{
    if params.len() == 0 {
        seq!["run"@, "--recipe"@, recipe_path]
    } else {
        spec_recipe_args(recipe_path, params.drop_last()).push("--params"@).push(
            params.last().0 + "="@ + params.last().1,
        )
    }
}

/// Builds the argument list for a recipe run from the resolved recipe path
/// and the parameters.
pub fn goose_recipe_args(recipe_path: &str, params: &Vec<(String, String)>) -> (r: Vec<String>)
    ensures
        crate::file_utils::string_views(r@) == spec_recipe_args(
            recipe_path@,
            crate::body_generator::entry_views(params@),
        ),
{
    let ghost pv = crate::body_generator::entry_views(params@);
    let mut out: Vec<String> = Vec::new();
    out.push("run".to_owned());
    out.push("--recipe".to_owned());
    out.push(recipe_path.to_owned());
    let mut i: usize = 0;
    proof {
        assert(pv.subrange(0, 0) =~= Seq::<(Seq<char>, Seq<char>)>::empty());
        assert(crate::file_utils::string_views(out@) =~= spec_recipe_args(
            recipe_path@,
            pv.subrange(0, 0),
        ));
    }
    while i < params.len()
        invariant
            i <= params@.len(),
            pv == crate::body_generator::entry_views(params@),
            crate::file_utils::string_views(out@) == spec_recipe_args(
                recipe_path@,
                pv.subrange(0, i as int),
            ),
        decreases params@.len() - i,
    {
        proof {
            assert(pv.subrange(0, i + 1).drop_last() =~= pv.subrange(0, i as int));
            assert(pv.subrange(0, i + 1).last() == pv[i as int]);
            assert(pv[i as int] == (params@[i as int].0@, params@[i as int].1@));
        }
        let ghost prev = out@;
        out.push("--params".to_owned());
        let mut kv = params[i].0.clone();
        kv.append("=");
        kv.append(params[i].1.as_str());
        let ghost mid = out@;
        out.push(kv);
        proof {
            assert(mid.drop_last() =~= prev);
            assert(out@.drop_last() =~= mid);
            assert(crate::file_utils::string_views(out@) =~= crate::file_utils::string_views(
                prev,
            ).push("--params"@).push(out@.last()@));
        }
        i += 1;
    }
    proof {
        assert(pv.subrange(0, pv.len() as int) =~= pv);
    }
    out
}

} // verus!
