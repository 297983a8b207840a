//! The CLI-usage summariser.
//!
//! Each known argument is classified from its declared defaults and the
//! invocation's raw values: values differing from the defaults record the
//! shape token (an argument was explicitly set), values equal to empty
//! defaults record `true` (a switch with no default materialised), and
//! anything else records nothing.

use crate::usage::UsageMap;
use crate::usage::UsageValue;
use crate::usage::UsageView;
use vstd::prelude::*;
use vstd::string::StringExecFns;

verus! {

/// One known CLI argument together with the invocation's raw values for
/// it, or `None` when the argument did not materialise at all.
pub struct ArgRecord {
    pub id: String,
    pub defaults: Vec<String>,
    pub values: Option<Vec<String>>,
}

/// The usage-map key for an argument.
pub open spec fn arg_key(id: Seq<char>) -> Seq<char> {
    "args."@ + id
}

/// What one argument records: the shape token when its values differ from
/// its defaults, `true` when they equal empty defaults, nothing otherwise.
pub open spec fn arg_usage(defaults: Seq<Seq<char>>, values: Option<Seq<Seq<char>>>) -> Option<
    UsageView,
> {
    match values {
        Option::None => Option::None,
        Option::Some(vs) => if vs != defaults {
            Option::Some(UsageView::SetToken)
        } else if defaults.len() == 0 {
            Option::Some(UsageView::Bool(true))
        } else {
            Option::None
        },
    }
}

/// What a list of arguments adds to the map `m`, in order.
pub open spec fn args_spec(m: Map<Seq<char>, UsageView>, args: Seq<ArgRecord>) -> Map<
    Seq<char>,
    UsageView,
>
    decreases args.len(),
{
    if args.len() == 0 {
        m
    } else {
        let a = args.first();
        let m1 = match arg_usage(a.defaults.deep_view(), a.values.deep_view()) {
            Option::Some(u) => m.insert(arg_key(a.id@), u),
            Option::None => m,
        };
        args_spec(m1, args.drop_first())
    }
}

/// Element-wise equality of two string lists, on views.
pub fn string_vecs_equal(a: &Vec<String>, b: &Vec<String>) -> (r: bool)
    ensures
        r == (a.deep_view() == b.deep_view()),
{
    let n = a.len();
    if n != b.len() {
        proof {
            assert(a.deep_view().len() != b.deep_view().len());
        }
        return false;
    }
    for i in 0..n
        invariant
            n == a.len() && n == b.len(),
            forall|j: int| 0 <= j < i ==> a.deep_view()[j] == b.deep_view()[j],
    {
        if !crate::usage::string_eq(&a[i], &b[i]) {
            proof {
                assert(a.deep_view()[i as int] != b.deep_view()[i as int]);
            }
            return false;
        }
    }
    proof {
        assert(a.deep_view() =~= b.deep_view());
    }
    true
}

/// Records every argument's classification in `usage`.
pub fn record_args(usage: &mut UsageMap, args: &Vec<ArgRecord>)
    requires
        old(usage).wf(),
    ensures
        final(usage).wf(),
        final(usage).as_map() == args_spec(old(usage).as_map(), args@),
{
    let n = args.len();
    proof {
        assert(args@.skip(0) =~= args@);
    }
    for i in 0..n
        invariant
            n == args.len(),
            usage.wf(),
            args_spec(old(usage).as_map(), args@) == args_spec(
                usage.as_map(),
                args@.skip(i as int),
            ),
    {
        proof {
            assert(args@.skip(i as int).first() == args@[i as int]);
            assert(args@.skip(i as int).drop_first() =~= args@.skip(i + 1));
        }
        let a = &args[i];
        match &a.values {
            Option::None => {},
            Option::Some(vs) => {
                if !string_vecs_equal(vs, &a.defaults) {
                    usage.insert(key_for_arg(a.id.as_str()), UsageValue::SetToken);
                } else if a.defaults.len() == 0 {
                    proof {
                        assert(a.defaults.deep_view().len() == 0);
                    }
                    usage.insert(key_for_arg(a.id.as_str()), UsageValue::Bool(true));
                } else {
                    proof {
                        assert(a.defaults.deep_view().len() != 0);
                    }
                }
            },
        }
    }
    proof {
        assert(args@.skip(n as int) =~= Seq::<ArgRecord>::empty());
    }
}

/// The argument summary never carries argument contents: every entry it
/// adds or overwrites is the shape token or the boolean `true`.
pub proof fn lemma_args_values(m: Map<Seq<char>, UsageView>, args: Seq<ArgRecord>)
    ensures
        forall|k: Seq<char>| #[trigger]
            args_spec(m, args).contains_key(k) ==> (m.contains_key(k) && args_spec(m, args)[k]
                == m[k]) || args_spec(m, args)[k] == UsageView::SetToken || args_spec(m, args)[k]
                == UsageView::Bool(true),
    decreases args.len(),
{
    if args.len() > 0 {
        let a = args.first();
        let m1 = match arg_usage(a.defaults.deep_view(), a.values.deep_view()) {
            Option::Some(u) => m.insert(arg_key(a.id@), u),
            Option::None => m,
        };
        let mr = args_spec(m1, args.drop_first());
        lemma_args_values(m1, args.drop_first());
        assert forall|k: Seq<char>| #[trigger] mr.contains_key(k) implies (m.contains_key(k)
            && mr[k] == m[k]) || mr[k] == UsageView::SetToken || mr[k] == UsageView::Bool(
            true,
        ) by {
            assert((m1.contains_key(k) && mr[k] == m1[k]) || mr[k] == UsageView::SetToken || mr[k]
                == UsageView::Bool(true));
        }
    }
}

/// Builds the `args.<id>` key.
fn key_for_arg(id: &str) -> (r: String)
    ensures
        r@ == arg_key(id@),
{
    let mut r = String::from_str("args.");
    r.append(id);
    r
}

} // verus!
