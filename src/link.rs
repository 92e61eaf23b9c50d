//! Endpoints: a locator (`<protocol>/<address>[?options]`) and a bag of
//! options.
use vstd::prelude::*;

verus! {

/// An endpoint: where to listen or connect, and the options for the link.
/// In the options, a later entry overrides an earlier one with the same key.
#[derive(Clone, Debug)]
pub struct EndPoint {
    pub locator: String,
    pub config: Vec<(String, String)>,
}

pub struct EndPointView {
    pub locator: Seq<char>,
    pub config: Seq<(Seq<char>, Seq<char>)>,
}

pub open spec fn options_view(c: Seq<(String, String)>) -> Seq<(Seq<char>, Seq<char>)> {
    c.map_values(|p: (String, String)| (p.0@, p.1@))
}

impl View for EndPoint {
    type V = EndPointView;

    open spec fn view(&self) -> EndPointView {
        EndPointView { locator: self.locator@, config: options_view(self.config@) }
    }
}

/// The protocol tag of a locator: everything before its first `/`.
pub open spec fn protocol_of(s: Seq<char>) -> Seq<char>
    decreases s.len(),
{
    if s.len() == 0 || s[0] == '/' {
        Seq::empty()
    } else {
        seq![s[0]] + protocol_of(s.subrange(1, s.len() as int))
    }
}

/// The value of `key` in an option bag: its last entry wins.
pub open spec fn option_value(c: Seq<(Seq<char>, Seq<char>)>, key: Seq<char>) -> Option<Seq<char>>
    decreases c.len(),
{
    if c.len() == 0 {
        None
    } else if c.last().0 == key {
        Some(c.last().1)
    } else {
        option_value(c.drop_last(), key)
    }
}

/// Appending a bag of defaults lets each default override the option it names.
pub proof fn lemma_option_value_append(
    a: Seq<(Seq<char>, Seq<char>)>,
    b: Seq<(Seq<char>, Seq<char>)>,
    key: Seq<char>,
)
    ensures
        option_value(a + b, key) == (match option_value(b, key) {
            Some(v) => Some(v),
            None => option_value(a, key),
        }),
    decreases b.len(),
{
    if b.len() == 0 {
        assert(a + b =~= a);
    } else {
        assert((a + b).drop_last() =~= a + b.drop_last());
        lemma_option_value_append(a, b.drop_last(), key);
    }
}

/// A copy of the option bag.
pub fn copy_options(c: &Vec<(String, String)>) -> (r: Vec<(String, String)>)
    ensures
        options_view(r@) == options_view(c@),
{
    let mut r: Vec<(String, String)> = Vec::new();
    let mut i: usize = 0;
    while i < c.len()
        invariant
            i <= c@.len(),
            options_view(r@) =~= options_view(c@.take(i as int)),
        decreases c@.len() - i,
    {
        let k = c[i].0.clone();
        let v = c[i].1.clone();
        let ghost before = r@;
        r.push((k, v));
        assert(c@.take(i + 1) =~= c@.take(i as int).push(c@[i as int]));
        assert(options_view(r@) =~= options_view(before).push((k@, v@)));
        assert(options_view(c@.take(i + 1)) =~= options_view(c@.take(i as int)).push((k@, v@)));
        i = i + 1;
    }
    assert(c@.take(c@.len() as int) =~= c@);
    r
}

/// Appends the entries of `defaults` to the option bag, so that they take
/// precedence over the options already there.
pub fn merge_options(config: &mut Vec<(String, String)>, defaults: &Vec<(String, String)>)
    ensures
        options_view(final(config)@) == options_view(old(config)@) + options_view(defaults@),
{
    let ghost start = options_view(config@);
    let mut i: usize = 0;
    while i < defaults.len()
        invariant
            i <= defaults@.len(),
            options_view(config@) =~= start + options_view(defaults@.take(i as int)),
        decreases defaults@.len() - i,
    {
        let k = defaults[i].0.clone();
        let v = defaults[i].1.clone();
        let ghost before = config@;
        config.push((k, v));
        assert(defaults@.take(i + 1) =~= defaults@.take(i as int).push(defaults@[i as int]));
        assert(options_view(config@) =~= options_view(before).push((k@, v@)));
        assert(options_view(defaults@.take(i + 1)) =~= options_view(defaults@.take(i as int)).push(
            (k@, v@),
        ));
        i = i + 1;
    }
    assert(defaults@.take(defaults@.len() as int) =~= defaults@);
}

impl EndPoint {
    /// The protocol tag of the endpoint's locator.
    pub fn protocol(&self) -> (r: String)
        ensures
            r@ == protocol_of(self.locator@),
    {
        let s = self.locator.as_str();
        let n = s.unicode_len();
        let mut i: usize = 0;
        assert(s@.subrange(0, n as int) =~= s@);
        assert(s@.subrange(0, 0) + protocol_of(s@.subrange(0, n as int)) =~= protocol_of(s@));
        while i < n
            invariant
                n == s@.len(),
                s@ == self.locator@,
                i <= n,
                protocol_of(s@) == s@.subrange(0, i as int) + protocol_of(
                    s@.subrange(i as int, n as int),
                ),
            decreases n - i,
        {
            if s.get_char(i) == '/' {
                assert(s@.subrange(0, i as int) + protocol_of(s@.subrange(i as int, n as int))
                    =~= s@.subrange(0, i as int));
                return String::from_str(s.substring_char(0, i));
            }
            assert(s@.subrange(i as int, n as int).subrange(1, n - i) =~= s@.subrange(
                i + 1,
                n as int,
            ));
            assert(s@.subrange(0, i + 1) =~= s@.subrange(0, i as int) + seq![s@[i as int]]);
            i = i + 1;
        }
        assert(s@.subrange(0, n as int) + protocol_of(s@.subrange(n as int, n as int))
            =~= s@.subrange(0, n as int));
        String::from_str(s.substring_char(0, n))
    }

    /// A copy of the endpoint.
    pub fn duplicate(&self) -> (r: EndPoint)
        ensures
            r@ == self@,
    {
        EndPoint { locator: self.locator.clone(), config: copy_options(&self.config) }
    }
}

} // verus!
