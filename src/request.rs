//! Query parameters of one request, their rendering, and their redacted form.
use vstd::prelude::*;

verus! {

/// A parameter as text: its name and its value.
pub type ParamView = (Seq<char>, Seq<char>);

/// Name of the parameter that carries the provider credential.
pub open spec fn credential_key() -> Seq<char> {
    seq!['a', 'p', 'p', 'i', 'd']
}

/// What a debug line shows in place of the credential.
pub open spec fn placeholder() -> Seq<char> {
    seq!['{', 'a', 'p', 'i', '_', 'k', 'e', 'y', '}']
}

/// `name=value`.
pub open spec fn pair_text(p: ParamView) -> Seq<char> {
    p.0 + seq!['='] + p.1
}

/// The parameters as `n1=v1&n2=v2...`, in their order.
pub open spec fn query_text(ps: Seq<ParamView>) -> Seq<char>
    decreases ps.len(),
{
    if ps.len() == 0 {
        Seq::empty()
    } else if ps.len() == 1 {
        pair_text(ps[0])
    } else {
        query_text(ps.drop_last()) + seq!['&'] + pair_text(ps.last())
    }
}

/// A parameter as a debug line shows it: the credential's value is replaced.
pub open spec fn shown(p: ParamView) -> ParamView {
    if p.0 == credential_key() {
        (p.0, placeholder())
    } else {
        p
    }
}

/// The parameters as a debug line shows them.
pub open spec fn redacted_params(ps: Seq<ParamView>) -> Seq<ParamView> {
    ps.map_values(|p: ParamView| shown(p))
}

/// `base` followed by the query, with `?` between them when there is a query.
pub open spec fn url_text(base: Seq<char>, ps: Seq<ParamView>) -> Seq<char> {
    if ps.len() == 0 {
        base
    } else {
        base + seq!['?'] + query_text(ps)
    }
}

/// The endpoint line of debug output: `base?` and the redacted query.
pub open spec fn debug_text(base: Seq<char>, ps: Seq<ParamView>) -> Seq<char> {
    base + seq!['?'] + query_text(redacted_params(ps))
}

/// Names are pairwise distinct.
pub open spec fn keys_unique(ps: Seq<ParamView>) -> bool {
    forall|i: int, j: int| 0 <= i < j < ps.len() ==> ps[i].0 != ps[j].0
}

/// A mapping from parameter name to value; each name occurs once, and the
/// order in which names were first inserted is kept.
#[derive(Debug)]
pub struct RequestParams {
    pub entries: Vec<(String, String)>,
}

impl View for RequestParams {
    type V = Seq<ParamView>;

    open spec fn view(&self) -> Seq<ParamView> {
        self.entries@.map_values(|e: (String, String)| (e.0@, e.1@))
    }
}

/// Equality of two strings, character by character.
pub fn same_text(a: &str, b: &str) -> (r: bool)
    ensures
        r == (a@ == b@),
{
    let n = a.unicode_len();
    if n != b.unicode_len() {
        return false;
    }
    let mut i: usize = 0;
    while i < n
        invariant
            n == a@.len(),
            n == b@.len(),
            i <= n,
            forall|k: int| 0 <= k < i ==> a@[k] == b@[k],
        decreases n - i,
    {
        if a.get_char(i) != b.get_char(i) {
            return false;
        }
        i = i + 1;
    }
    assert(a@ =~= b@);
    true
}

/// Appends `name=value` to `out`.
fn push_pair(out: &mut String, name: &str, value: &str)
    ensures
        final(out)@ == old(out)@ + pair_text((name@, value@)),
{
    out.append(name);
    let eq = "=";
    proof {
        reveal_strlit("=");
    }
    assert(eq@ =~= seq!['=']);
    out.append(eq);
    out.append(value);
    assert(final(out)@ =~= old(out)@ + pair_text((name@, value@)));
}

/// Renders the entries as `n1=v1&n2=v2...`; with `redact`, the credential's
/// value as the placeholder.
fn render_query(entries: &Vec<(String, String)>, redact: bool) -> (r: String)
    ensures
        redact ==> r@ == query_text(
            redacted_params(entries@.map_values(|e: (String, String)| (e.0@, e.1@))),
        ),
        !redact ==> r@ == query_text(entries@.map_values(|e: (String, String)| (e.0@, e.1@))),
{
    let ghost ps = entries@.map_values(|e: (String, String)| (e.0@, e.1@));
    let ghost target = if redact { redacted_params(ps) } else { ps };
    let mut out = String::new();
    let amp = "&";
    let hidden = "{api_key}";
    let key = "appid";
    proof {
        reveal_strlit("&");
        reveal_strlit("{api_key}");
        reveal_strlit("appid");
        assert(amp@ =~= seq!['&']);
        assert(hidden@ =~= placeholder());
        assert(key@ =~= credential_key());
    }
    let mut i: usize = 0;
    while i < entries.len()
        invariant
            ps == entries@.map_values(|e: (String, String)| (e.0@, e.1@)),
            target == if redact { redacted_params(ps) } else { ps },
            target.len() == ps.len(),
            i <= entries.len(),
            amp@ == seq!['&'],
            hidden@ == placeholder(),
            key@ == credential_key(),
            out@ == query_text(target.take(i as int)),
        decreases entries.len() - i,
    {
        let name = entries[i].0.as_str();
        let value = if redact && same_text(name, key) {
            hidden
        } else {
            entries[i].1.as_str()
        };
        proof {
            assert(ps[i as int] == (name@, entries@[i as int].1@));
            assert(target[i as int] == (name@, value@));
        }
        if i > 0 {
            out.append(amp);
        }
        push_pair(&mut out, name, value);
        proof {
            let t = target.take(i as int + 1);
            assert(t.drop_last() =~= target.take(i as int));
            assert(t.last() == (name@, value@));
            assert(out@ =~= query_text(t));
        }
        i = i + 1;
    }
    assert(target.take(entries.len() as int) =~= target);
    out
}

impl RequestParams {
    /// No parameters.
    pub fn new() -> (r: Self)
        ensures
            r@ == Seq::<ParamView>::empty(),
    {
        let r = RequestParams { entries: Vec::new() };
        assert(r@ =~= Seq::<ParamView>::empty());
        r
    }

    /// Sets `name` to `value`: an existing name keeps its place and takes the
    /// new value; a new name goes after the others.
    pub fn insert(&mut self, name: String, value: String)
        requires
            keys_unique(old(self)@),
        ensures
            keys_unique(final(self)@),
            (exists|i: int| 0 <= i < old(self)@.len() && old(self)@[i].0 == name@)
                ==> (exists|i: int|
                0 <= i < old(self)@.len() && old(self)@[i].0 == name@
                    && final(self)@ == old(self)@.update(i, (name@, value@))),
            (forall|i: int| 0 <= i < old(self)@.len() ==> old(self)@[i].0 != name@)
                ==> final(self)@ == old(self)@.push((name@, value@)),
    {
        let ghost before = self@;
        let mut i: usize = 0;
        while i < self.entries.len()
            invariant
                self@ == before,
                before == old(self)@,
                keys_unique(before),
                i <= self.entries.len(),
                forall|k: int| 0 <= k < i ==> before[k].0 != name@,
            decreases self.entries.len() - i,
        {
            if same_text(self.entries[i].0.as_str(), name.as_str()) {
                let ghost n = name@;
                let ghost v = value@;
                self.entries.set(i, (name, value));
                proof {
                    assert(self@ =~= before.update(i as int, (n, v)));
                    assert(before[i as int].0 == n);
                    assert(forall|k: int| 0 <= k < self@.len() ==> self@[k].0 == before[k].0);
                    assert(keys_unique(self@));
                    assert(0 <= i < before.len() && before[i as int].0 == n && self@
                        == before.update(i as int, (n, v)));
                }
                return;
            }
            i = i + 1;
        }
        let ghost n = name@;
        let ghost v = value@;
        self.entries.push((name, value));
        assert(self@ =~= before.push((n, v)));
        assert(keys_unique(self@)) by {
            assert(forall|k: int| 0 <= k < before.len() ==> self@[k] == before[k]);
            assert(self@[before.len() as int].0 == n);
        }
    }

    /// The parameters as `n1=v1&n2=v2...`.
    pub fn query(&self) -> (r: String)
        ensures
            r@ == query_text(self@),
    {
        render_query(&self.entries, false)
    }

    /// The parameters as `n1=v1&n2=v2...`, the credential's value replaced by
    /// the placeholder.
    pub fn redacted(&self) -> (r: String)
        ensures
            r@ == query_text(redacted_params(self@)),
    {
        render_query(&self.entries, true)
    }
    /// `base` followed by `?` and the query; `base` alone when there are no
    /// parameters. This is the address a fetch-style transport requests.
    pub fn url(&self, base: &str) -> (r: String)
        ensures
            r@ == url_text(base@, self@),
    {
        let mut out = String::from_str(base);
        if self.entries.len() > 0 {
            let q = "?";
            proof {
                reveal_strlit("?");
            }
            out.append(q);
            let query = self.query();
            out.append(query.as_str());
            assert(out@ =~= url_text(base@, self@));
        }
        out
    }

    /// The endpoint line of debug output: `base?` and the redacted query.
    pub fn debug_url(&self, base: &str) -> (r: String)
        ensures
            r@ == debug_text(base@, self@),
    {
        let mut out = String::from_str(base);
        let q = "?";
        proof {
            reveal_strlit("?");
        }
        out.append(q);
        let query = self.redacted();
        out.append(query.as_str());
        assert(out@ =~= debug_text(base@, self@));
        out
    }
}

/// Two parameter lists that differ at most in the credential's value render
/// to the same redacted query: what a debug line shows does not depend on the
/// credential.
pub proof fn lemma_redaction_ignores_credential(a: Seq<ParamView>, b: Seq<ParamView>)
    requires
        a.len() == b.len(),
        forall|i: int| 0 <= i < a.len() ==> (#[trigger] a[i]).0 == b[i].0,
        forall|i: int| 0 <= i < a.len() && (#[trigger] a[i]).0 != credential_key() ==> a[i].1 == b[i].1,
    ensures
        query_text(redacted_params(a)) == query_text(redacted_params(b)),
{
    assert(redacted_params(a) =~= redacted_params(b));
}

} // verus!
