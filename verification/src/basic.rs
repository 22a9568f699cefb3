//! The basic server and world implementations: id allocation, name
//! defaulting, and world registration.
use crate::registry::Registry;
use crate::Dimension;
use crate::Named;
use crate::Server;
use vstd::prelude::*;
use vstd::string::StringExecFns;

verus! {

/// The server id allocator: a monotone counter that hands out strictly
/// increasing, never-repeating ids. The process holds one instance of it for
/// its whole lifetime; the ghost `issued` sequence records every id handed
/// out, in order.
pub struct IdCounter {
    next: usize,
    issued: Ghost<Seq<usize>>,
}

impl IdCounter {
    /// The ids handed out so far, oldest first.
    pub closed spec fn issued(&self) -> Seq<usize> {
        self.issued@
    }

    /// The id the next allocation will return.
    pub closed spec fn next_val(&self) -> nat {
        self.next as nat
    }

    /// The counter's invariant: it has issued exactly the ids below
    /// `next_val`, in increasing order.
    pub closed spec fn wf(&self) -> bool {
        &&& self.issued@.len() == self.next
        &&& forall|i: int| 0 <= i < self.issued@.len() ==> #[trigger] self.issued@[i] == i
    }

    /// A fresh counter, as the process starts: nothing issued yet.
    pub fn new() -> (c: Self)
        ensures
            c.wf(),
            c.issued() == Seq::<usize>::empty(),
            c.next_val() == 0,
    {
        IdCounter { next: 0, issued: Ghost(Seq::empty()) }
    }

    /// The id the next allocation will return; lets a caller check that the
    /// counter is not exhausted before allocating.
    pub fn current(&self) -> (v: usize)
        ensures
            v == self.next_val(),
    {
        self.next
    }
}

/// Allocates the next server id: each call returns a value strictly greater
/// than every id issued before it.
pub fn next_server_id(counter: &mut IdCounter) -> (id: usize)
    requires
        old(counter).wf(),
        old(counter).next_val() < usize::MAX,
    ensures
        final(counter).wf(),
        id == old(counter).next_val(),
        final(counter).next_val() == old(counter).next_val() + 1,
        final(counter).issued() == old(counter).issued().push(id),
        forall|i: int|
            0 <= i < old(counter).issued().len() ==> #[trigger] old(counter).issued()[i] < id,
{
    let id = counter.next;
    counter.next = counter.next + 1;
    proof {
        counter.issued@ = counter.issued@.push(id);
    }
    id
}

/// Law: the ids a counter has issued are strictly increasing in issue order,
/// and so the collection of issued ids holds no duplicates.
pub proof fn lemma_issued_ids_increasing_and_distinct(c: IdCounter)
    requires
        c.wf(),
    ensures
        forall|i: int, j: int|
            0 <= i < j < c.issued().len() ==> #[trigger] c.issued()[i] < #[trigger] c.issued()[j],
        forall|i: int, j: int|
            0 <= i < c.issued().len() && 0 <= j < c.issued().len() && i != j
                ==> #[trigger] c.issued()[i] != #[trigger] c.issued()[j],
{
}

/// The character for one decimal digit.
pub open spec fn digit_char(d: nat) -> char {
    if d == 0 {
        '0'
    } else if d == 1 {
        '1'
    } else if d == 2 {
        '2'
    } else if d == 3 {
        '3'
    } else if d == 4 {
        '4'
    } else if d == 5 {
        '5'
    } else if d == 6 {
        '6'
    } else if d == 7 {
        '7'
    } else if d == 8 {
        '8'
    } else {
        '9'
    }
}

/// The numeric value of one decimal digit character; 10 for any other
/// character.
pub open spec fn digit_val(c: char) -> nat {
    if c == '0' {
        0
    } else if c == '1' {
        1
    } else if c == '2' {
        2
    } else if c == '3' {
        3
    } else if c == '4' {
        4
    } else if c == '5' {
        5
    } else if c == '6' {
        6
    } else if c == '7' {
        7
    } else if c == '8' {
        8
    } else if c == '9' {
        9
    } else {
        10
    }
}

/// The usual decimal rendering of `n`, without a sign and without leading
/// zeros (except for `n == 0`, rendered as "0").
pub open spec fn decimal_digits(n: nat) -> Seq<char>
    decreases n,
{
    if n < 10 {
        seq![digit_char(n)]
    } else {
        decimal_digits(n / 10).push(digit_char(n % 10))
    }
}

/// The number a digit sequence denotes, read in base ten.
pub open spec fn decimal_value(s: Seq<char>) -> nat
    decreases s.len(),
{
    if s.len() == 0 {
        0
    } else {
        decimal_value(s.drop_last()) * 10 + digit_val(s.last())
    }
}

proof fn lemma_decimal_digits_value(n: nat)
    ensures
        decimal_value(decimal_digits(n)) == n,
    decreases n,
{
    if n < 10 {
        let s = decimal_digits(n);
        assert(s =~= seq![digit_char(n)]);
        assert(s.drop_last() =~= Seq::<char>::empty());
        assert(decimal_value(s.drop_last()) == 0);
        assert(s.last() == digit_char(n));
        assert(digit_val(digit_char(n)) == n);
        assert(decimal_value(s) == digit_val(digit_char(n)));
    } else {
        lemma_decimal_digits_value(n / 10);
        let s = decimal_digits(n);
        assert(s == decimal_digits(n / 10).push(digit_char(n % 10)));
        assert(s.len() == decimal_digits(n / 10).len() + 1);
        assert(s.drop_last() =~= decimal_digits(n / 10));
        assert(s.last() == digit_char(n % 10));
        assert(digit_val(digit_char(n % 10)) == n % 10);
        assert(decimal_value(s) == (n / 10) * 10 + n % 10);
        vstd::arithmetic::div_mod::lemma_fundamental_div_mod(n as int, 10);
        assert((n / 10) * 10 + n % 10 == n);
    }
}

/// Law: distinct numbers have distinct decimal renderings.
pub proof fn lemma_decimal_digits_injective(a: nat, b: nat)
    requires
        a != b,
    ensures
        decimal_digits(a) != decimal_digits(b),
{
    if decimal_digits(a) == decimal_digits(b) {
        lemma_decimal_digits_value(a);
        lemma_decimal_digits_value(b);
    }
}

/// The default display name of a server that was created without one: the
/// fixed prefix followed by the server's allocated id, in decimal.
pub open spec fn default_server_name(id: nat) -> Seq<char> {
    "basic_server"@ + decimal_digits(id)
}

/// Law: servers constructed without a name get default names that differ
/// whenever their allocated ids differ.
pub proof fn lemma_default_server_names_differ(a: nat, b: nat)
    requires
        a != b,
    ensures
        default_server_name(a) != default_server_name(b),
{
    lemma_decimal_digits_injective(a, b);
    if default_server_name(a) == default_server_name(b) {
        let p = "basic_server"@;
        let da = decimal_digits(a);
        let db = decimal_digits(b);
        assert((p + da).len() == (p + db).len());
        assert(da =~= (p + da).subrange(p.len() as int, (p + da).len() as int));
        assert(db =~= (p + db).subrange(p.len() as int, (p + db).len() as int));
    }
}

/// Appends one decimal digit character to `out`.
fn push_digit_char(out: &mut String, d: usize)
    requires
        d < 10,
    ensures
        final(out)@ == old(out)@.push(digit_char(d as nat)),
{
    if d == 0 {
        proof {
            reveal_strlit("0");
        }
        out.append("0");
    } else if d == 1 {
        proof {
            reveal_strlit("1");
        }
        out.append("1");
    } else if d == 2 {
        proof {
            reveal_strlit("2");
        }
        out.append("2");
    } else if d == 3 {
        proof {
            reveal_strlit("3");
        }
        out.append("3");
    } else if d == 4 {
        proof {
            reveal_strlit("4");
        }
        out.append("4");
    } else if d == 5 {
        proof {
            reveal_strlit("5");
        }
        out.append("5");
    } else if d == 6 {
        proof {
            reveal_strlit("6");
        }
        out.append("6");
    } else if d == 7 {
        proof {
            reveal_strlit("7");
        }
        out.append("7");
    } else if d == 8 {
        proof {
            reveal_strlit("8");
        }
        out.append("8");
    } else {
        proof {
            reveal_strlit("9");
        }
        out.append("9");
    }
    proof {
        assert(out@ =~= old(out)@.push(digit_char(d as nat)));
    }
}

/// Appends the decimal rendering of `n` to `out`.
fn push_decimal(out: &mut String, n: usize)
    ensures
        final(out)@ == old(out)@ + decimal_digits(n as nat),
    decreases n,
{
    if n >= 10 {
        push_decimal(out, n / 10);
    }
    push_digit_char(out, n % 10);
    proof {
        assert(out@ =~= old(out)@ + decimal_digits(n as nat));
    }
}

/// The placeholder dimension: a minimal named object standing in for future
/// per-dimension state.
#[derive(Clone)]
pub struct BasicOverworld {}

impl Named for BasicOverworld {
    open spec fn name_spec(&self) -> Seq<char> {
        "Overworld"@
    }

    fn get_name(&self) -> (n: String) {
        String::from_str("Overworld")
    }
}

impl Dimension for BasicOverworld {

}

/// A world: a named object owning a registry of dimensions, which starts
/// empty. Its concurrent runner task, and the weak self-handle that keeps
/// the runner supplied with a live handle, are the surrounding process's
/// affair; the world itself is the value those handles share.
#[derive(Clone)]
pub struct BasicWorld {
    name: String,
    dimensions: Registry<BasicOverworld>,
}

impl BasicWorld {
    /// The world's internal invariant.
    pub closed spec fn inv(&self) -> bool {
        self.dimensions.wf()
    }

    /// The dimension registry, as a map from names to dimensions.
    pub closed spec fn dimensions_spec(&self) -> Map<Seq<char>, BasicOverworld> {
        self.dimensions.as_map()
    }

    /// Creates a world with the given display name and an empty dimension
    /// registry.
    pub fn new(name: String) -> (w: BasicWorld)
        ensures
            w.inv(),
            w.name_spec() == name@,
            w.dimensions_spec() == Map::<Seq<char>, BasicOverworld>::empty(),
    {
        BasicWorld { name, dimensions: Registry::new() }
    }
}

impl Named for BasicWorld {
    closed spec fn name_spec(&self) -> Seq<char> {
        self.name@
    }

    fn get_name(&self) -> (n: String) {
        self.name.clone()
    }
}

impl crate::World for BasicWorld {

}

/// A server: a named object with an allocated numeric id, a base path
/// resolved once at construction, and a registry of worlds keyed by name.
pub struct BasicServer {
    name: String,
    id: usize,
    path: String,
    worlds: Registry<BasicWorld>,
}

impl BasicServer {
    /// Creates a server: draws the next id from `counter`, stores the base
    /// path handed in by the caller, and defaults the display name to the
    /// fixed prefix plus the drawn id when none is supplied. Its world
    /// registry starts empty.
    pub fn new(name: Option<String>, counter: &mut IdCounter, path: String) -> (s: BasicServer)
        requires
            old(counter).wf(),
            old(counter).next_val() < usize::MAX,
        ensures
            s.inv(),
            final(counter).wf(),
            final(counter).next_val() == old(counter).next_val() + 1,
            final(counter).issued() == old(counter).issued().push(
                old(counter).next_val() as usize,
            ),
            s.id_spec() == old(counter).next_val(),
            s.path_spec() == path@,
            s.worlds_spec() == Map::<Seq<char>, BasicWorld>::empty(),
            match name {
                Some(n) => s.name_spec() == n@,
                None => s.name_spec() == default_server_name(s.id_spec()),
            },
    {
        let new_id = next_server_id(counter);
        let server_name: String = match name {
            Some(n) => n,
            None => {
                let mut r = String::from_str("basic_server");
                push_decimal(&mut r, new_id);
                r
            },
        };
        BasicServer { name: server_name, id: new_id, path, worlds: Registry::new() }
    }

    /// The allocated id, unchanged since construction.
    pub fn get_id(&self) -> (id: usize)
        ensures
            id == self.id_spec(),
    {
        self.id
    }

    /// The world registered under `name`, if any.
    pub fn get_world(&self, name: &String) -> (r: Option<&BasicWorld>)
        requires
            self.inv(),
        ensures
            match r {
                Some(w) => self.worlds_spec().contains_key(name@)
                    && *w == self.worlds_spec()[name@],
                None => !self.worlds_spec().contains_key(name@),
            },
    {
        self.worlds.get(name)
    }

    /// How many worlds are registered.
    pub fn world_count(&self) -> (n: usize)
        requires
            self.inv(),
        ensures
            n == self.worlds_spec().len(),
    {
        self.worlds.len()
    }
}

impl Named for BasicServer {
    closed spec fn name_spec(&self) -> Seq<char> {
        self.name@
    }

    fn get_name(&self) -> (n: String) {
        self.name.clone()
    }
}

impl Server for BasicServer {
    closed spec fn inv(&self) -> bool {
        self.worlds.wf()
    }

    closed spec fn worlds_spec(&self) -> Map<Seq<char>, BasicWorld> {
        self.worlds.as_map()
    }

    closed spec fn path_spec(&self) -> Seq<char> {
        self.path@
    }

    closed spec fn id_spec(&self) -> nat {
        self.id as nat
    }

    fn get_path(&self) -> (p: String) {
        self.path.clone()
    }

    fn register(&mut self, w: BasicWorld, s: String) -> (registered: bool) {
        self.worlds.try_insert(s, w)
    }
}

} // verus!
