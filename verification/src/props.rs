//! The properties that a catalog is loaded with.

use crate::keyed::KeyedMap;
use crate::text::same_text;
use vstd::prelude::*;

verus! {

/// The name of `iceberg::io::S3_ACCESS_KEY_ID`. The contract gives the text of the constant.
#[verifier::external_body]
fn s3_access_key_id() -> (name: &'static str)
    ensures
        name@ == "s3.access-key-id"@,
{
    iceberg::io::S3_ACCESS_KEY_ID
}

/// The name of `iceberg::io::S3_SECRET_ACCESS_KEY`. The contract gives the text of the constant.
#[verifier::external_body]
fn s3_secret_access_key() -> (name: &'static str)
    ensures
        name@ == "s3.secret-access-key"@,
{
    iceberg::io::S3_SECRET_ACCESS_KEY
}

/// The name of `iceberg::io::S3_REGION`. The contract gives the text of the constant.
#[verifier::external_body]
fn s3_region() -> (name: &'static str)
    ensures
        name@ == "s3.region"@,
{
    iceberg::io::S3_REGION
}

/// The name of `iceberg::io::S3_ENDPOINT`. The contract gives the text of the constant.
#[verifier::external_body]
fn s3_endpoint() -> (name: &'static str)
    ensures
        name@ == "s3.endpoint"@,
{
    iceberg::io::S3_ENDPOINT
}

/// The property of an S3 store that the environment variable `k` sets, if it sets one.
pub open spec fn s3_prop(k: Seq<char>) -> Option<Seq<char>> {
    if k == "AWS_ACCESS_KEY_ID"@ {
        Some("s3.access-key-id"@)
    } else if k == "AWS_SECRET_ACCESS_KEY"@ {
        Some("s3.secret-access-key"@)
    } else if k == "AWS_DEFAULT_REGION"@ {
        Some("s3.region"@)
    } else if k == "AWS_ENDPOINT"@ {
        Some("s3.endpoint"@)
    } else {
        None
    }
}

/// The property of an S3 store that the environment variable `k` sets, if it sets one.
pub fn env_mapping(k: &str) -> (prop: Option<&'static str>)
    ensures
        match prop {
            Some(name) => s3_prop(k@) == Some(name@),
            None => s3_prop(k@) is None,
        },
{
    if same_text(k, "AWS_ACCESS_KEY_ID") {
        Some(s3_access_key_id())
    } else if same_text(k, "AWS_SECRET_ACCESS_KEY") {
        Some(s3_secret_access_key())
    } else if same_text(k, "AWS_DEFAULT_REGION") {
        Some(s3_region())
    } else if same_text(k, "AWS_ENDPOINT") {
        Some(s3_endpoint())
    } else {
        None
    }
}

/// The texts of a sequence of pairs of strings.
pub open spec fn pair_texts(pairs: Seq<(String, String)>) -> Seq<(Seq<char>, Seq<char>)> {
    pairs.map_values(|p: (String, String)| (p.0@, p.1@))
}

/// The properties that the environment sets, in the order of its variables.
pub open spec fn s3_props(vars: Seq<(Seq<char>, Seq<char>)>) -> Seq<(Seq<char>, Seq<char>)>
    decreases vars.len(),
{
    if vars.len() == 0 {
        Seq::empty()
    } else {
        let rest = s3_props(vars.drop_last());
        match s3_prop(vars.last().0) {
            Some(name) => rest.push((name, vars.last().1)),
            None => rest,
        }
    }
}

/// The properties of an S3 store that the environment variables `vars` set.
pub fn env_s3_props(vars: Vec<(String, String)>) -> (props: Vec<(String, String)>)
    ensures
        pair_texts(props@) == s3_props(pair_texts(vars@)),
{
    let ghost texts = pair_texts(vars@);
    let mut props: Vec<(String, String)> = Vec::new();
    let mut i: usize = 0;
    proof {
        assert(texts.take(0) =~= Seq::empty());
        assert(pair_texts(props@) =~= Seq::empty());
    }
    while i < vars.len()
        invariant
            i <= vars@.len(),
            texts == pair_texts(vars@),
            pair_texts(props@) == s3_props(texts.take(i as int)),
        decreases vars@.len() - i,
    {
        let ghost before = props@;
        proof {
            assert(texts.take(i + 1).drop_last() =~= texts.take(i as int));
            assert(texts.take(i + 1).last() == (vars@[i as int].0@, vars@[i as int].1@));
        }
        match env_mapping(vars[i].0.as_str()) {
            Some(name) => {
                props.push((name.to_owned(), vars[i].1.clone()));
                assert(pair_texts(props@) =~= pair_texts(before).push(
                    (name@, vars@[i as int].1@),
                ));
            },
            None => {},
        }
        i = i + 1;
    }
    assert(texts.take(i as int) =~= texts);
    props
}

/// Named properties.
pub type Props = KeyedMap<String, String>;

/// The properties as a map of texts.
pub open spec fn props_texts(props: Props) -> Map<Seq<char>, Seq<char>> {
    props@.map_values(|value: String| value@)
}

/// The map that a sequence of pairs makes: of several pairs with one name the last one stays.
pub open spec fn collected(pairs: Seq<(Seq<char>, Seq<char>)>) -> Map<Seq<char>, Seq<char>>
    decreases pairs.len(),
{
    if pairs.len() == 0 {
        Map::empty()
    } else {
        collected(pairs.drop_last()).insert(pairs.last().0, pairs.last().1)
    }
}

/// Puts `value` under `name`.
pub fn set_prop(props: &mut Props, name: &str, value: String)
    ensures
        props_texts(*final(props)) == props_texts(*old(props)).insert(name@, value@),
{
    let key: String = name.to_owned();
    let previous = props.insert(key, value);
    assert(props_texts(*props) =~= props_texts(*old(props)).insert(name@, value@));
}

/// The properties that the environment variables `vars` set, by name.
pub fn collect_s3_props(vars: Vec<(String, String)>) -> (props: Props)
    ensures
        props_texts(props) == collected(s3_props(pair_texts(vars@))),
{
    let pairs: Vec<(String, String)> = env_s3_props(vars);
    let ghost texts = pair_texts(pairs@);
    let mut props: Props = KeyedMap::new();
    let mut i: usize = 0;
    proof {
        assert(texts.take(0) =~= Seq::empty());
        assert(props_texts(props) =~= Map::empty());
    }
    while i < pairs.len()
        invariant
            i <= pairs@.len(),
            texts == pair_texts(pairs@),
            props_texts(props) == collected(texts.take(i as int)),
        decreases pairs@.len() - i,
    {
        proof {
            assert(texts.take(i + 1).drop_last() =~= texts.take(i as int));
            assert(texts.take(i + 1).last() == (pairs@[i as int].0@, pairs@[i as int].1@));
        }
        set_prop(&mut props, pairs[i].0.as_str(), pairs[i].1.clone());
        i = i + 1;
    }
    assert(texts.take(i as int) =~= texts);
    props
}

/// The names of the properties that the environment can set.
pub open spec fn is_s3_prop(name: Seq<char>) -> bool {
    ||| name == "s3.access-key-id"@
    ||| name == "s3.secret-access-key"@
    ||| name == "s3.region"@
    ||| name == "s3.endpoint"@
}

proof fn lemma_prop_names_differ()
    ensures
        "s3.access-key-id"@ != "s3.secret-access-key"@,
        "s3.access-key-id"@ != "s3.region"@,
        "s3.access-key-id"@ != "s3.endpoint"@,
        "s3.secret-access-key"@ != "s3.region"@,
        "s3.secret-access-key"@ != "s3.endpoint"@,
        "s3.region"@ != "s3.endpoint"@,
{
    reveal_strlit("s3.access-key-id");
    reveal_strlit("s3.secret-access-key");
    reveal_strlit("s3.region");
    reveal_strlit("s3.endpoint");
    assert("s3.access-key-id"@.len() == 16);
    assert("s3.secret-access-key"@.len() == 20);
    assert("s3.region"@.len() == 9);
    assert("s3.endpoint"@.len() == 11);
}

/// No two environment variables set the same property.
pub proof fn law_variables_set_different_props(a: Seq<char>, b: Seq<char>)
    requires
        s3_prop(a) is Some,
        s3_prop(a) == s3_prop(b),
    ensures
        a == b,
{
    lemma_prop_names_differ();
}

/// The environment sets no property but the four of an S3 store, whatever its variables are.
pub proof fn law_environment_sets_s3_props_only(
    vars: Seq<(Seq<char>, Seq<char>)>,
    name: Seq<char>,
)
    requires
        collected(s3_props(vars)).contains_key(name),
    ensures
        is_s3_prop(name),
    decreases vars.len(),
{
    if vars.len() > 0 {
        let rest = s3_props(vars.drop_last());
        match s3_prop(vars.last().0) {
            Some(last) => {
                assert(s3_props(vars).drop_last() =~= rest);
                if name != last {
                    law_environment_sets_s3_props_only(vars.drop_last(), name);
                }
            },
            None => {
                law_environment_sets_s3_props_only(vars.drop_last(), name);
            },
        }
    }
}

/// An environment variable that sets a property gives it its value; of several variables with one
/// name the last does.
pub proof fn law_variable_gives_value(vars: Seq<(Seq<char>, Seq<char>)>, i: int)
    requires
        0 <= i < vars.len(),
        s3_prop(vars[i].0) is Some,
        forall|j: int| i < j < vars.len() ==> (#[trigger] vars[j]).0 != vars[i].0,
    ensures
        collected(s3_props(vars)).contains_key(s3_prop(vars[i].0)->0),
        collected(s3_props(vars))[s3_prop(vars[i].0)->0] == vars[i].1,
    decreases vars.len(),
{
    let rest = s3_props(vars.drop_last());
    if s3_prop(vars.last().0) is Some {
        assert(s3_props(vars).drop_last() =~= rest);
    }
    if i < vars.len() - 1 {
        assert forall|j: int| i < j < vars.drop_last().len() implies (
        #[trigger] vars.drop_last()[j]).0 != vars.drop_last()[i].0 by {
            assert(vars[j].0 != vars[i].0);
        }
        law_variable_gives_value(vars.drop_last(), i);
        assert(vars[vars.len() - 1].0 != vars[i].0);
        if s3_prop(vars.last().0) == s3_prop(vars[i].0) {
            law_variables_set_different_props(vars.last().0, vars[i].0);
        }
    }
}

/// Whether the environment variable `variable` is the one that sets the property `name` of an S3
/// store.
pub open spec fn names_prop(variable: Seq<char>, name: Seq<char>) -> bool {
    ||| variable == "AWS_ACCESS_KEY_ID"@ && name == "s3.access-key-id"@
    ||| variable == "AWS_SECRET_ACCESS_KEY"@ && name == "s3.secret-access-key"@
    ||| variable == "AWS_DEFAULT_REGION"@ && name == "s3.region"@
    ||| variable == "AWS_ENDPOINT"@ && name == "s3.endpoint"@
}

proof fn lemma_variables_differ()
    ensures
        "AWS_ACCESS_KEY_ID"@ != "AWS_SECRET_ACCESS_KEY"@,
        "AWS_ACCESS_KEY_ID"@ != "AWS_DEFAULT_REGION"@,
        "AWS_ACCESS_KEY_ID"@ != "AWS_ENDPOINT"@,
        "AWS_SECRET_ACCESS_KEY"@ != "AWS_DEFAULT_REGION"@,
        "AWS_SECRET_ACCESS_KEY"@ != "AWS_ENDPOINT"@,
        "AWS_DEFAULT_REGION"@ != "AWS_ENDPOINT"@,
{
    reveal_strlit("AWS_ACCESS_KEY_ID");
    reveal_strlit("AWS_SECRET_ACCESS_KEY");
    reveal_strlit("AWS_DEFAULT_REGION");
    reveal_strlit("AWS_ENDPOINT");
    assert("AWS_ACCESS_KEY_ID"@.len() == 17);
    assert("AWS_SECRET_ACCESS_KEY"@.len() == 21);
    assert("AWS_DEFAULT_REGION"@.len() == 18);
    assert("AWS_ENDPOINT"@.len() == 12);
}

/// A variable sets a property just where it is the one of the four that names it.
pub proof fn law_four_variables_set_props(variable: Seq<char>, name: Seq<char>)
    ensures
        s3_prop(variable) == Some(name) <==> names_prop(variable, name),
{
    lemma_variables_differ();
}

/// [`env_mapping`] gives the property that a variable names, and none for a variable that names
/// none.
pub proof fn law_mapping_gives_the_named_prop(k: &str, prop: Option<&'static str>)
    requires
        call_ensures(env_mapping, (k,), prop),
    ensures
        match prop {
            Some(name) => names_prop(k@, name@),
            None => forall|name: Seq<char>| !names_prop(k@, name),
        },
{
    assert forall|name: Seq<char>| names_prop(k@, name) implies prop is Some by {
        law_four_variables_set_props(k@, name);
    }
    if prop is Some {
        law_four_variables_set_props(k@, prop->0@);
    }
}

/// Whether `chosen` lists the positions of the variables that set a property, in their order, and
/// `props` the properties that they set.
pub open spec fn are_set_by(
    props: Seq<(Seq<char>, Seq<char>)>,
    vars: Seq<(Seq<char>, Seq<char>)>,
    chosen: Seq<int>,
) -> bool {
    &&& chosen.len() == props.len()
    &&& forall|j: int|
        0 <= j < chosen.len() ==> 0 <= #[trigger] chosen[j] < vars.len() && names_prop(
            vars[chosen[j]].0,
            props[j].0,
        ) && props[j].1 == vars[chosen[j]].1
    &&& forall|i: int, j: int| 0 <= i < j < chosen.len() ==> chosen[i] < chosen[j]
    &&& forall|i: int, name: Seq<char>|
        0 <= i < vars.len() && #[trigger] names_prop(vars[i].0, name) ==> chosen.contains(i)
}

proof fn lemma_props_are_set(vars: Seq<(Seq<char>, Seq<char>)>) -> (chosen: Seq<int>)
    ensures
        are_set_by(s3_props(vars), vars, chosen),
    decreases vars.len(),
{
    if vars.len() == 0 {
        Seq::empty()
    } else {
        let fewer = vars.drop_last();
        let n = vars.len() - 1;
        let before = lemma_props_are_set(fewer);
        let props = s3_props(vars);
        let chosen = if s3_prop(vars.last().0) is Some {
            before.push(n)
        } else {
            before
        };
        assert forall|j: int| 0 <= j < chosen.len() implies 0 <= #[trigger] chosen[j] < vars.len()
            && names_prop(vars[chosen[j]].0, props[j].0) && props[j].1 == vars[chosen[j]].1 by {
            if j < before.len() {
                assert(chosen[j] == before[j]);
                assert(fewer[before[j]] == vars[before[j]]);
            } else {
                law_four_variables_set_props(vars[n].0, s3_prop(vars[n].0)->0);
            }
        }
        assert forall|i: int, name: Seq<char>|
            0 <= i < vars.len() && #[trigger] names_prop(
                vars[i].0,
                name,
            ) implies chosen.contains(i) by {
            if i < n {
                assert(names_prop(fewer[i].0, name));
                assert(before.contains(i));
                let j = choose|j: int| 0 <= j < before.len() && before[j] == i;
                assert(chosen[j] == i);
            } else {
                law_four_variables_set_props(vars[n].0, name);
                assert(chosen[chosen.len() - 1] == n);
            }
        }
        chosen
    }
}

/// [`env_s3_props`] gives the properties that variables name, with the values of the variables, in
/// their order, and no others.
pub proof fn law_environment_is_taken_in_order(
    vars: Vec<(String, String)>,
    props: Vec<(String, String)>,
)
    requires
        call_ensures(env_s3_props, (vars,), props),
    ensures
        exists|chosen: Seq<int>| are_set_by(pair_texts(props@), pair_texts(vars@), chosen),
{
    let chosen = lemma_props_are_set(pair_texts(vars@));
}

/// The position of a variable that sets the property, if there is one.
proof fn lemma_set_prop_has_a_setter(vars: Seq<(Seq<char>, Seq<char>)>, name: Seq<char>)
    requires
        collected(s3_props(vars)).contains_key(name),
    ensures
        exists|i: int| 0 <= i < vars.len() && s3_prop((#[trigger] vars[i]).0) == Some(name),
    decreases vars.len(),
{
    let fewer = vars.drop_last();
    let n = vars.len() - 1;
    if s3_prop(vars.last().0) == Some(name) {
        assert(vars[n] == vars.last());
    } else {
        if s3_prop(vars.last().0) is Some {
            assert(s3_props(vars).drop_last() =~= s3_props(fewer));
        }
        lemma_set_prop_has_a_setter(fewer, name);
        let i = choose|i: int|
            0 <= i < fewer.len() && s3_prop((#[trigger] fewer[i]).0) == Some(name);
        assert(vars[i] == fewer[i]);
    }
}

proof fn lemma_last_setter_sets(vars: Seq<(Seq<char>, Seq<char>)>, name: Seq<char>, i: int)
    requires
        0 <= i < vars.len(),
        s3_prop(vars[i].0) == Some(name),
        forall|j: int| i < j < vars.len() ==> s3_prop((#[trigger] vars[j]).0) != Some(name),
    ensures
        collected(s3_props(vars)).contains_key(name),
        collected(s3_props(vars))[name] == vars[i].1,
{
    assert forall|j: int| i < j < vars.len() implies (#[trigger] vars[j]).0 != vars[i].0 by {
        assert(s3_prop(vars[j].0) != Some(name));
    }
    law_variable_gives_value(vars, i);
}

proof fn lemma_setter_sets(vars: Seq<(Seq<char>, Seq<char>)>, name: Seq<char>, i: int)
    requires
        0 <= i < vars.len(),
        s3_prop(vars[i].0) == Some(name),
    ensures
        collected(s3_props(vars)).contains_key(name),
    decreases vars.len(),
{
    let fewer = vars.drop_last();
    if s3_prop(vars.last().0) is Some {
        assert(s3_props(vars).drop_last() =~= s3_props(fewer));
    }
    if i < vars.len() - 1 {
        assert(fewer[i] == vars[i]);
        lemma_setter_sets(fewer, name, i);
    }
}

/// A property is set just where some variable names it.
pub proof fn law_named_props_are_set(vars: Seq<(Seq<char>, Seq<char>)>, name: Seq<char>)
    ensures
        collected(s3_props(vars)).contains_key(name) <==> exists|i: int|
            0 <= i < vars.len() && names_prop((#[trigger] vars[i]).0, name),
{
    if collected(s3_props(vars)).contains_key(name) {
        lemma_set_prop_has_a_setter(vars, name);
        let i = choose|i: int|
            0 <= i < vars.len() && s3_prop((#[trigger] vars[i]).0) == Some(name);
        law_four_variables_set_props(vars[i].0, name);
    }
    if exists|i: int| 0 <= i < vars.len() && names_prop((#[trigger] vars[i]).0, name) {
        let i = choose|i: int| 0 <= i < vars.len() && names_prop((#[trigger] vars[i]).0, name);
        law_four_variables_set_props(vars[i].0, name);
        lemma_setter_sets(vars, name, i);
    }
}

/// Of all the variables, the last one that names a property gives it its value.
pub proof fn law_last_variable_sets_the_prop(
    vars: Seq<(Seq<char>, Seq<char>)>,
    name: Seq<char>,
    i: int,
)
    requires
        0 <= i < vars.len(),
        names_prop(vars[i].0, name),
        forall|j: int| i < j < vars.len() ==> !names_prop((#[trigger] vars[j]).0, name),
    ensures
        collected(s3_props(vars)).contains_key(name),
        collected(s3_props(vars))[name] == vars[i].1,
{
    law_four_variables_set_props(vars[i].0, name);
    assert forall|j: int| i < j < vars.len() implies s3_prop((#[trigger] vars[j]).0) != Some(
        name,
    ) by {
        law_four_variables_set_props(vars[j].0, name);
    }
    lemma_last_setter_sets(vars, name, i);
}

} // verus!
