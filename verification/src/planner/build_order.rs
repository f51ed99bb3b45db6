//! Making a templated addition order ready for dispatch.

use vstd::prelude::*;
use vstd::string::*;
use crate::keyed::{first_index, is_first_index, lemma_first_index, lemma_first_index_exists};
use crate::orders::{
    env_insert, env_keys, env_lookup, json_from_text, json_string, texts_view, AdditionOrder,
    AdditionOrderView, EnvVarView,
};
use crate::planner::problem::{ProblemInfo, ProblemInfoView};
use crate::text::{
    after_first, contains, find, has_substring, join, lemma_prefix_is_first, occurs_at, tail,
};

verus! {

/// Why an order could not be built.
#[derive(Clone, Copy, Debug, PartialEq, Eq, Structural)]
pub enum BuildError {
    /// More than one argument holds the data key marker.
    AmbiguousDatakey,
}

impl BuildError {
    /// The error in words.
    pub fn message(&self) -> (r: String)
        ensures
            r@ == "More than one key= string found"@,
    {
        String::from_str("More than one key= string found")
    }
}

/// The marker of the templated argument: `key=`.
pub open spec fn datakey() -> Seq<char> {
    seq!['k', 'e', 'y', '=']
}

/// The name of the environment variable that carries the device identity:
/// `device_uuid`.
pub open spec fn device_uuid_key() -> Seq<char> {
    seq!['d', 'e', 'v', 'i', 'c', 'e', '_', 'u', 'u', 'i', 'd']
}

/// `location=`.
pub open spec fn location_prefix() -> Seq<char> {
    seq!['l', 'o', 'c', 'a', 't', 'i', 'o', 'n', '=']
}

/// `topic=`.
pub open spec fn topic_prefix() -> Seq<char> {
    seq!['t', 'o', 'p', 'i', 'c', '=']
}

/// A lower-case hexadecimal digit.
pub open spec fn is_hex_digit(c: char) -> bool {
    ('0' <= c && c <= '9') || ('a' <= c && c <= 'f')
}

/// The text of a version 4 UUID: 36 characters, lower-case hexadecimal
/// digits in groups of 8, 4, 4, 4 and 12 with hyphens between them, the third
/// group opening with `4` and the fourth with `8`, `9`, `a` or `b`.
pub open spec fn is_v4_uuid_text(s: Seq<char>) -> bool {
    &&& s.len() == 36
    &&& forall|i: int|
        0 <= i < 36 ==> if i == 8 || i == 13 || i == 18 || i == 23 {
            s[i] == '-'
        } else {
            is_hex_digit(#[trigger] s[i])
        }
    &&& s[14] == '4'
    &&& (s[19] == '8' || s[19] == '9' || s[19] == 'a' || s[19] == 'b')
}

/// `uuid::Uuid::new_v4` and the `to_string` of the result. Each call gives
/// another identifier, so the contract states what holds of all of them: the
/// version and variant bits that `new_v4` sets, in the hyphenated lower-case
/// form that `Uuid`'s `Display` writes.
#[verifier::external_body]
fn fresh_uuid_text() -> (text: String)
    ensures
        is_v4_uuid_text(text@),
{
    uuid::Uuid::new_v4().to_string()
}

/// The argument holds the data key marker.
pub open spec fn is_datakey_arg(arg: Seq<char>) -> bool {
    contains(arg, datakey())
}

/// No argument holds the marker.
pub open spec fn no_datakey(args: Seq<Seq<char>>) -> bool {
    forall|j: int| 0 <= j < args.len() ==> !is_datakey_arg(#[trigger] args[j])
}

/// The argument at `i` holds the marker, and no other does.
pub open spec fn sole_datakey(args: Seq<Seq<char>>, i: int) -> bool {
    &&& 0 <= i < args.len()
    &&& is_datakey_arg(args[i])
    &&& forall|j: int| 0 <= j < args.len() && j != i ==> !is_datakey_arg(#[trigger] args[j])
}

/// Two or more arguments hold the marker.
pub open spec fn ambiguous_datakey(args: Seq<Seq<char>>) -> bool {
    exists|i: int, j: int|
        0 <= i < j < args.len() && is_datakey_arg(#[trigger] args[i]) && is_datakey_arg(
            #[trigger] args[j],
        )
}

/// The templated argument with the marker replaced: the data requirement's
/// key, `=`, and what followed the first marker.
pub open spec fn rewritten(arg: Seq<char>, req_key: Seq<char>) -> Seq<char> {
    req_key + seq!['='] + after_first(arg, datakey())
}

/// The arguments once the templated one has been taken out and its rewritten
/// form added at the end. Where no argument is the only one to hold the
/// marker, the arguments are as they were.
pub open spec fn with_datakey(args: Seq<Seq<char>>, req_key: Seq<char>) -> Seq<Seq<char>> {
    if exists|i: int| sole_datakey(args, i) {
        let i = choose|i: int| sole_datakey(args, i);
        args.remove(i).push(rewritten(args[i], req_key))
    } else {
        args
    }
}

/// The order built against the problem `p` with the device identity `uuid`.
pub open spec fn built(
    order: AdditionOrderView,
    p: ProblemInfoView,
    uuid: Seq<char>,
) -> AdditionOrderView {
    AdditionOrderView {
        env_vars: env_insert(order.env_vars, device_uuid_key(), json_string(uuid)),
        args: with_datakey(order.args, p.data_requirement_key).push(
            location_prefix() + p.location_key,
        ).push(topic_prefix() + p.data_requirement_key),
        ..order
    }
}

/// How the order after a build relates to the order before it: built in
/// full, or, where the data key is ambiguous, refused with only the device
/// identity set.
pub open spec fn build_outcome(
    before: AdditionOrderView,
    p: ProblemInfoView,
    uuid: Seq<char>,
    after: AdditionOrderView,
    r: Result<(), BuildError>,
) -> bool {
    match r {
        Ok(()) => !ambiguous_datakey(before.args) && after == built(before, p, uuid),
        Err(BuildError::AmbiguousDatakey) => ambiguous_datakey(before.args) && after == (
        AdditionOrderView {
            env_vars: env_insert(before.env_vars, device_uuid_key(), json_string(uuid)),
            ..before
        }),
    }
}

/// Only one argument can be the only one to hold the marker.
pub proof fn lemma_sole_datakey(args: Seq<Seq<char>>, i: int)
    requires
        sole_datakey(args, i),
    ensures
        (choose|k: int| sole_datakey(args, k)) == i,
        !ambiguous_datakey(args),
        !no_datakey(args),
{
    let c = choose|k: int| sole_datakey(args, k);
    assert(sole_datakey(args, c));
}

/// A variable that has been set is there, with the value it was set to.
proof fn lemma_env_insert_keys(
    vars: Seq<EnvVarView>,
    key: Seq<char>,
    value: serde_json::Value,
)
    ensures
        env_keys(env_insert(vars, key, value)).contains(key),
        env_lookup(env_insert(vars, key, value), key) == Some(value),
{
    let keys = env_keys(vars);
    let after = env_insert(vars, key, value);
    if keys.contains(key) {
        lemma_first_index_exists(keys, key);
        let i = first_index(keys, key);
        assert(env_keys(after) =~= keys);
    } else {
        let n = vars.len() as int;
        assert(env_keys(after) =~= keys.push(key));
        assert(env_keys(after)[n] == key);
        assert forall|j: int| 0 <= j < n implies env_keys(after)[j] != key by {
            assert(keys[j] == env_keys(after)[j]);
            assert(keys.contains(keys[j]));
        }
        assert(is_first_index(env_keys(after), key, n));
        lemma_first_index(env_keys(after), key, n);
    }
}

/// The builder's rewrite. Whatever the template, the built order names the
/// location and the topic among its arguments, and carries the device
/// identity in its environment. Where exactly one argument of the template
/// holds the marker, and that argument is the marker followed by `x`, the
/// built order has the data requirement's key, `=` and `x` among its
/// arguments; and it has the templated argument itself no more, unless the
/// data requirement's key is `key`, in which case the two are the same.
pub proof fn law_builder_rewrite(
    order: AdditionOrderView,
    p: ProblemInfoView,
    uuid: Seq<char>,
    i: int,
    x: Seq<char>,
)
    ensures
        built(order, p, uuid).args.contains(location_prefix() + p.location_key),
        built(order, p, uuid).args.contains(topic_prefix() + p.data_requirement_key),
        env_lookup(built(order, p, uuid).env_vars, device_uuid_key()) == Some(json_string(uuid)),
        sole_datakey(order.args, i) && order.args[i] == datakey() + x ==> built(
            order,
            p,
            uuid,
        ).args.contains(p.data_requirement_key + seq!['='] + x),
        sole_datakey(order.args, i) && order.args[i] == datakey() + x && p.data_requirement_key
            != seq!['k', 'e', 'y'] ==> !built(order, p, uuid).args.contains(datakey() + x),
{
    let b = built(order, p, uuid);
    let req = p.data_requirement_key;
    let with_key = with_datakey(order.args, req);
    let location = location_prefix() + p.location_key;
    let topic = topic_prefix() + req;
    assert(b.args == with_key.push(location).push(topic));
    assert(b.args[with_key.len() as int] == location);
    assert(b.args[with_key.len() as int + 1] == topic);
    lemma_env_insert_keys(order.env_vars, device_uuid_key(), json_string(uuid));
    if sole_datakey(order.args, i) && order.args[i] == datakey() + x {
        lemma_sole_datakey(order.args, i);
        lemma_prefix_is_first(datakey(), x);
        let fresh = req + seq!['='] + x;
        assert(rewritten(order.args[i], req) == fresh);
        let kept = order.args.remove(i);
        assert(with_key == kept.push(fresh));
        assert(b.args[kept.len() as int] == fresh);
        if req != seq!['k', 'e', 'y'] {
            let old = datakey() + x;
            assert(contains(old, datakey())) by {
                assert(occurs_at(old, datakey(), 0));
            }
            assert forall|j: int| 0 <= j < b.args.len() implies b.args[j] != old by {
                if j < kept.len() {
                    if j < i {
                        assert(kept[j] == order.args[j]);
                    } else {
                        assert(kept[j] == order.args[j + 1]);
                    }
                    assert(!is_datakey_arg(b.args[j]));
                } else if j == kept.len() {
                    if fresh == old {
                        assert(fresh.len() == old.len());
                        assert(req.len() == 3);
                        assert(req =~= seq!['k', 'e', 'y']) by {
                            assert(fresh[0] == old[0]);
                            assert(fresh[1] == old[1]);
                            assert(fresh[2] == old[2]);
                        }
                    }
                } else if j == kept.len() + 1 {
                    assert(location[0] == 'l');
                    assert(old[0] == 'k');
                } else {
                    assert(topic[0] == 't');
                    assert(old[0] == 'k');
                }
            }
        }
    }
}

/// An ambiguous data key. A build is refused whenever two arguments of the
/// template hold the marker, and only then.
pub proof fn law_ambiguous_datakey(
    before: AdditionOrderView,
    p: ProblemInfoView,
    uuid: Seq<char>,
    after: AdditionOrderView,
    r: Result<(), BuildError>,
    i: int,
    j: int,
)
    requires
        build_outcome(before, p, uuid, after, r),
    ensures
        0 <= i < before.args.len() && 0 <= j < before.args.len() && i != j && is_datakey_arg(
            before.args[i],
        ) && is_datakey_arg(before.args[j]) ==> r == Err::<(), BuildError>(
            BuildError::AmbiguousDatakey,
        ),
        r is Err ==> ambiguous_datakey(before.args),
{
    if 0 <= i < before.args.len() && 0 <= j < before.args.len() && i != j && is_datakey_arg(
        before.args[i],
    ) && is_datakey_arg(before.args[j]) {
        if i < j {
            assert(ambiguous_datakey(before.args));
        } else {
            assert(is_datakey_arg(before.args[j]) && is_datakey_arg(before.args[i]));
            assert(ambiguous_datakey(before.args));
        }
        match r {
            Ok(()) => {
                assert(false);
            },
            Err(e) => {
                assert(e == BuildError::AmbiguousDatakey);
            },
        }
    }
}

/// Making an order ready for dispatch against what `T` describes.
pub trait BuildOrder<T> {
    /// Builds the order in place.
    fn build_order(&mut self, t: &T) -> Result<(), BuildError>;

    /// Takes the templated argument out of the order and returns its
    /// rewritten form, if there is one such argument.
    fn process_datakey(&mut self, req_key: &str) -> Result<Option<String>, BuildError>;
}

impl AdditionOrder {
    /// Builds the order in place against `t`, with `device_uuid` as the
    /// identity of the device to be.
    pub fn build_order_with(&mut self, t: &ProblemInfo, device_uuid: String) -> (r: Result<
        (),
        BuildError,
    >)
        ensures
            build_outcome(old(self)@, t@, device_uuid@, final(self)@, r),
    {
        proof {
            reveal_strlit("device_uuid");
            reveal_strlit("location=");
            reveal_strlit("topic=");
            assert("device_uuid"@ =~= device_uuid_key());
            assert("location="@ =~= location_prefix());
            assert("topic="@ =~= topic_prefix());
        }
        let ghost before = self@;
        let ghost uuid = device_uuid@;
        self.set_env(String::from_str("device_uuid"), json_from_text(device_uuid));
        let ghost middle = self@;
        match self.process_datakey(t.data_requirement_key.as_str()) {
            Err(e) => {
                return Err(e);
            },
            Ok(Some(k)) => {
                let ghost prev = texts_view(self.args@);
                self.args.push(k);
                assert(texts_view(self.args@) =~= prev.push(k@));
            },
            Ok(None) => {},
        }
        let ghost with_key = texts_view(self.args@);
        assert(with_key == with_datakey(before.args, t@.data_requirement_key));
        let location = join("location=", t.location_key.as_str());
        let topic = join("topic=", t.data_requirement_key.as_str());
        self.args.push(location);
        self.args.push(topic);
        assert(texts_view(self.args@) =~= with_key.push(location_prefix() + t@.location_key).push(
            topic_prefix() + t@.data_requirement_key,
        ));
        Ok(())
    }
}

impl BuildOrder<ProblemInfo> for AdditionOrder {
    /// Builds the order in place against `t`, for a device identity that is
    /// made up afresh.
    fn build_order(&mut self, t: &ProblemInfo) -> (r: Result<(), BuildError>)
        ensures
            exists|uuid: Seq<char>|
                is_v4_uuid_text(uuid) && #[trigger] build_outcome(
                    old(self)@,
                    t@,
                    uuid,
                    final(self)@,
                    r,
                ),
    {
        let device_uuid = fresh_uuid_text();
        self.build_order_with(t, device_uuid)
    }

    fn process_datakey(&mut self, req_key: &str) -> (r: Result<Option<String>, BuildError>)
        ensures
            match r {
                Ok(None) => no_datakey(old(self)@.args) && final(self)@ == old(self)@,
                Ok(Some(k)) => exists|i: int|
                    #![trigger sole_datakey(old(self)@.args, i)]
                    sole_datakey(old(self)@.args, i) && k@ == rewritten(
                        old(self)@.args[i],
                        req_key@,
                    ) && final(self)@ == (AdditionOrderView {
                        args: old(self)@.args.remove(i),
                        ..old(self)@
                    }),
                Err(BuildError::AmbiguousDatakey) => ambiguous_datakey(old(self)@.args)
                    && final(self)@ == old(self)@,
            },
            match r {
                Ok(None) => with_datakey(old(self)@.args, req_key@) == final(self)@.args,
                Ok(Some(k)) => with_datakey(old(self)@.args, req_key@) == final(self)@.args.push(
                    k@,
                ),
                Err(_) => true,
            },
    {
        proof {
            reveal_strlit("key=");
            reveal_strlit("=");
            assert("key="@ =~= datakey());
            assert("="@ =~= seq!['=']);
        }
        let ghost args = texts_view(self.args@);
        let n = self.args.len();
        let mut first: Option<usize> = None;
        let mut i: usize = 0;
        while i < n
            invariant
                i <= n,
                n == self.args@.len(),
                *self == *old(self),
                args == texts_view(self.args@),
                "key="@ == datakey(),
                match first {
                    None => forall|j: int| 0 <= j < i ==> !is_datakey_arg(#[trigger] args[j]),
                    Some(f) => f < i && is_datakey_arg(args[f as int]) && forall|j: int|
                        0 <= j < i && j != f ==> !is_datakey_arg(#[trigger] args[j]),
                },
            decreases n - i,
        {
            assert(args[i as int] == self.args@[i as int]@);
            if has_substring(self.args[i].as_str(), "key=") {
                match first {
                    Some(f) => {
                        assert(is_datakey_arg(args[f as int]) && is_datakey_arg(args[i as int]));
                        return Err(BuildError::AmbiguousDatakey);
                    },
                    None => {
                        first = Some(i);
                    },
                }
            }
            i += 1;
        }
        match first {
            None => {
                assert(args.len() == n);
                assert(!exists|k: int| sole_datakey(args, k));
                Ok(None)
            },
            Some(f) => {
                proof {
                    assert(sole_datakey(args, f as int));
                    lemma_sole_datakey(args, f as int);
                }
                let arg = self.args.remove(f);
                assert(texts_view(self.args@) =~= args.remove(f as int));
                assert(arg@ == args[f as int]);
                let at = match find(arg.as_str(), "key=") {
                    Some(at) => at,
                    None => 0,
                };
                let rest = tail(arg.as_str(), at + 4);
                let head = join(req_key, "=");
                let k = join(head.as_str(), rest.as_str());
                assert(k@ == rewritten(args[f as int], req_key@));
                assert(args == old(self)@.args);
                assert(self@ == (AdditionOrderView { args: args.remove(f as int), ..old(self)@ }));
                Ok(Some(k))
            },
        }
    }
}

} // verus!
