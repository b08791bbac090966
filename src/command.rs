use crate::assoc::{assoc, lemma_assoc_domain, lemma_assoc_last};
use crate::text::strings_view;
use vstd::prelude::*;

verus! {

/// The handler that a command word is bound to.
#[derive(Clone, Copy, Debug, PartialEq, Eq, Structural)]
pub enum Command {
    Quit,
    MoveCommand,
    LookAround,
    Interact,
    Inventory,
    Help,
    Save,
    Load,
    Status,
    MapView,
}

pub open spec fn strs_view(v: Seq<&str>) -> Seq<Seq<char>> {
    v.map_values(|s: &str| s@)
}

/// The keys `name` and each of `abbreviations`, all bound to `v`.
pub open spec fn keyed<V>(name: Seq<char>, abbreviations: Seq<Seq<char>>, v: V) -> Map<
    Seq<char>,
    V,
> {
    Map::new(|k: Seq<char>| k == name || abbreviations.contains(k), |k: Seq<char>| v)
}

/// The command words: each bound to a handler and to the names of the
/// arguments it expects.
pub struct InputManager {
    pub input_map: Vec<(String, Command)>,
    pub input_args: Vec<(String, Vec<String>)>,
    pub last_command: String,
}

fn to_strings(v: &Vec<&str>) -> (r: Vec<String>)
    ensures
        strings_view(r@) == strs_view(v@),
{
    let mut r: Vec<String> = Vec::new();
    let mut i: usize = 0;
    while i < v.len()
        invariant
            i <= v.len(),
            strings_view(r@) == strs_view(v@.subrange(0, i as int)),
        decreases v.len() - i,
    {
        let ghost before = r@;
        r.push(v[i].to_owned());
        assert(strings_view(r@) =~= strings_view(before).push(v@[i as int]@));
        assert(strs_view(v@.subrange(0, i + 1)) =~= strs_view(v@.subrange(0, i as int)).push(
            v@[i as int]@,
        ));
        i = i + 1;
    }
    assert(v@.subrange(0, i as int) =~= v@);
    r
}

proof fn lemma_keyed_step<V>(m: Map<Seq<char>, V>, name: Seq<char>, ab: Seq<Seq<char>>, i: int, v: V)
    requires
        0 <= i < ab.len(),
    ensures
        m.union_prefer_right(keyed(name, ab.subrange(0, i), v)).insert(ab[i], v)
            == m.union_prefer_right(keyed(name, ab.subrange(0, i + 1), v)),
{
    let p = ab.subrange(0, i);
    let q = ab.subrange(0, i + 1);
    assert forall|k: Seq<char>| q.contains(k) <==> (p.contains(k) || k == ab[i]) by {
        if q.contains(k) {
            let j = choose|j: int| 0 <= j < i + 1 && #[trigger] q[j] == k;
            if j < i {
                assert(p[j] == k);
            }
        }
        if p.contains(k) {
            let j = choose|j: int| 0 <= j < i && #[trigger] p[j] == k;
            assert(q[j] == k);
        }
        if k == ab[i] {
            assert(q[i] == k);
        }
    }
    let l = m.union_prefer_right(keyed(name, p, v)).insert(ab[i], v);
    let r = m.union_prefer_right(keyed(name, q, v));
    assert forall|k: Seq<char>| #[trigger] l.contains_key(k) <==> r.contains_key(k) by {
        assert(keyed(name, q, v).contains_key(k) <==> (keyed(name, p, v).contains_key(k) || k == ab[i]));
    }
    assert forall|k: Seq<char>| #[trigger] l.contains_key(k) implies l[k] == r[k] by {
        assert(keyed(name, q, v).contains_key(k) <==> (keyed(name, p, v).contains_key(k) || k == ab[i]));
    }
    assert(l =~= r);
}

impl InputManager {
    /// The handler bound to each command word.
    pub open spec fn commands(&self) -> Map<Seq<char>, Command> {
        assoc(self.input_map@.map_values(|e: (String, Command)| (e.0@, e.1)))
    }

    /// The argument names bound to each command word.
    pub open spec fn arg_schemas(&self) -> Map<Seq<char>, Seq<Seq<char>>> {
        assoc(self.input_args@.map_values(|e: (String, Vec<String>)| (e.0@, strings_view(e.1@))))
    }

    /// An empty registry.
    pub fn new() -> (r: InputManager)
        ensures
            r.commands() == Map::<Seq<char>, Command>::empty(),
            r.arg_schemas() == Map::<Seq<char>, Seq<Seq<char>>>::empty(),
            r.last_command@ == Seq::<char>::empty(),
    {
        let r = InputManager { input_map: Vec::new(), input_args: Vec::new(), last_command: String::new() };
        assert(r.input_map@.map_values(|e: (String, Command)| (e.0@, e.1)) =~= Seq::empty());
        assert(r.input_args@.map_values(|e: (String, Vec<String>)| (e.0@, strings_view(e.1@)))
            =~= Seq::empty());
        r
    }

    fn bind(&mut self, key: &str, function: Command, args: &Vec<&str>)
        ensures
            final(self).commands() == old(self).commands().insert(key@, function),
            final(self).arg_schemas() == old(self).arg_schemas().insert(key@, strs_view(args@)),
            final(self).last_command == old(self).last_command,
    {
        let ghost m0 = self.input_map@;
        let ghost a0 = self.input_args@;
        self.input_map.push((key.to_owned(), function));
        let names = to_strings(args);
        self.input_args.push((key.to_owned(), names));
        assert(self.input_map@.map_values(|e: (String, Command)| (e.0@, e.1)).drop_last()
            =~= m0.map_values(|e: (String, Command)| (e.0@, e.1)));
        assert(self.input_args@.map_values(|e: (String, Vec<String>)| (e.0@, strings_view(e.1@))).drop_last()
            =~= a0.map_values(|e: (String, Vec<String>)| (e.0@, strings_view(e.1@))));
    }

    /// Binds `command` and every one of `abbreviations` to `function` and to
    /// the argument names `args`; a word bound before is bound anew.
    pub fn insert_command_and_abbreviations(
        &mut self,
        command: &str,
        function: Command,
        args: Vec<&str>,
        abbreviations: Vec<&str>,
    )
        ensures
            final(self).commands() == old(self).commands().union_prefer_right(
                keyed(command@, strs_view(abbreviations@), function),
            ),
            final(self).arg_schemas() == old(self).arg_schemas().union_prefer_right(
                keyed(command@, strs_view(abbreviations@), strs_view(args@)),
            ),
            final(self).last_command == old(self).last_command,
    {
        let ghost c0 = self.commands();
        let ghost s0 = self.arg_schemas();
        let ghost sv = strs_view(args@);
        let ghost ab = strs_view(abbreviations@);
        self.bind(command, function, &args);
        let mut i: usize = 0;
        while i < abbreviations.len()
            invariant
                i <= abbreviations.len(),
                ab == strs_view(abbreviations@),
                sv == strs_view(args@),
                self.commands() == c0.union_prefer_right(
                    keyed(command@, ab.subrange(0, i as int), function),
                ),
                self.arg_schemas() == s0.union_prefer_right(
                    keyed(command@, ab.subrange(0, i as int), sv),
                ),
                self.last_command == old(self).last_command,
            decreases abbreviations.len() - i,
        {
            let ghost pc = self.commands();
            let ghost ps = self.arg_schemas();
            let a = abbreviations[i];
            assert(a@ == ab[i as int]);
            self.bind(a, function, &args);
            proof {
                lemma_keyed_step(c0, command@, ab, i as int, function);
                lemma_keyed_step(s0, command@, ab, i as int, sv);
            }
            i = i + 1;
        }
        assert(ab.subrange(0, i as int) =~= ab);
    }

    /// The handler bound to `key`, if any.
    pub fn lookup(&self, key: &String) -> (r: Option<Command>)
        ensures
            r is Some <==> self.commands().contains_key(key@),
            r matches Some(c) ==> c == self.commands()[key@],
    {
        let ghost s = self.input_map@.map_values(|e: (String, Command)| (e.0@, e.1));
        let mut i: usize = self.input_map.len();
        while i > 0
            invariant
                i <= self.input_map.len(),
                s == self.input_map@.map_values(|e: (String, Command)| (e.0@, e.1)),
                forall|j: int| i <= j < s.len() ==> s[j].0 != key@,
            decreases i,
        {
            if self.input_map[i - 1].0 == *key {
                proof {
                    lemma_assoc_last(s, key@, i - 1);
                }
                return Some(self.input_map[i - 1].1);
            }
            i = i - 1;
        }
        proof {
            lemma_assoc_domain(s, key@);
        }
        None
    }
}

} // verus!
