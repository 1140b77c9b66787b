use vstd::prelude::*;
use vstd::string::*;
use crate::text::{is_space, is_space_char, seq_lt, str_eq, str_lt, lemma_lt_asymmetric,
    lemma_lt_irreflexive, lemma_lt_total, lemma_lt_transitive};

verus! {

/// What `Path::file_name` gives for a path: its last component, if any.
pub uninterp spec fn file_name_of(path: Seq<char>) -> Option<Seq<char>>;

/// Relies on `std::path::Path::file_name`: the last component of the path,
/// or nothing where the path ends in `..` or has no component; a path made
/// from a `&str` always converts back to one.
#[verifier::external_body]
fn base_name(path: &str) -> (r: Option<String>)
    ensures
        r is Some <==> file_name_of(path@) is Some,
        r matches Some(n) ==> n@ == file_name_of(path@)->0,
{
    let name = std::path::Path::new(path).file_name()?;
    match name.to_str() {
        Some(s) => Some(s.to_string()),
        None => None,
    }
}

/// The characters of `s` up to its first whitespace.
pub open spec fn take_word(s: Seq<char>) -> Seq<char>
    decreases s.len(),
{
    if s.len() == 0 || is_space(s[0]) {
        seq![]
    } else {
        seq![s[0]] + take_word(s.drop_first())
    }
}

/// The first whitespace-delimited token of `s`, empty where there is none.
pub open spec fn first_word(s: Seq<char>) -> Seq<char>
    decreases s.len(),
{
    if s.len() == 0 {
        seq![]
    } else if is_space(s[0]) {
        first_word(s.drop_first())
    } else {
        take_word(s)
    }
}

/// `s` cut at each line feed; a text without one is a single line.
pub open spec fn split_lines(s: Seq<char>) -> Seq<Seq<char>>
    decreases s.len(),
{
    if s.len() == 0 {
        seq![seq![]]
    } else {
        let init = split_lines(s.drop_last());
        if s.last() == '\n' {
            init.push(seq![])
        } else {
            init.update(init.len() - 1, init.last().push(s.last()))
        }
    }
}

/// The shared library that one line of the lister's output names: the base
/// file name of its first token.
pub open spec fn library_of_line(line: Seq<char>) -> Option<Seq<char>> {
    let t = first_word(line);
    if t.len() == 0 {
        None
    } else {
        file_name_of(t)
    }
}

/// The libraries named by `lines`, in order, skipping the lines that name none.
pub open spec fn libraries_of_lines(lines: Seq<Seq<char>>) -> Seq<Seq<char>>
    decreases lines.len(),
{
    if lines.len() == 0 {
        seq![]
    } else {
        let rest = libraries_of_lines(lines.drop_last());
        match library_of_line(lines.last()) {
            Some(n) => rest.push(n),
            None => rest,
        }
    }
}

/// The libraries named by the whole output of the lister.
pub open spec fn libraries_of_output(text: Seq<char>) -> Seq<Seq<char>> {
    libraries_of_lines(split_lines(text))
}

pub open spec fn string_views(v: Seq<String>) -> Seq<Seq<char>> {
    v.map_values(|s: String| s@)
}

pub open spec fn option_view(o: Option<String>) -> Option<Seq<char>> {
    match o {
        Some(s) => Some(s@),
        None => None,
    }
}

pub open spec fn option_views(v: Seq<Option<String>>) -> Seq<Option<Seq<char>>> {
    v.map_values(|o: Option<String>| option_view(o))
}

/// The first whitespace-delimited token of `line`, empty where there is none.
pub fn first_token(line: &str) -> (r: String)
    ensures
        r@ == first_word(line@),
{
    let n = line.unicode_len();
    let mut i: usize = 0;
    assert(line@.subrange(0, n as int) =~= line@);
    while i < n && is_space_char(line.get_char(i))
        invariant
            n == line@.len(),
            i <= n,
            first_word(line@) == first_word(line@.subrange(i as int, n as int)),
        decreases n - i,
    {
        assert(line@.subrange(i as int, n as int).drop_first() =~= line@.subrange(
            i + 1,
            n as int,
        ));
        i = i + 1;
    }
    let mut j: usize = i;
    assert(line@.subrange(i as int, i as int) =~= seq![]);
    while j < n && !is_space_char(line.get_char(j))
        invariant
            n == line@.len(),
            i <= j <= n,
            take_word(line@.subrange(i as int, n as int)) == line@.subrange(i as int, j as int)
                + take_word(line@.subrange(j as int, n as int)),
        decreases n - j,
    {
        assert(line@.subrange(j as int, n as int).drop_first() =~= line@.subrange(
            j + 1,
            n as int,
        ));
        assert(line@.subrange(i as int, j + 1) =~= line@.subrange(i as int, j as int) + seq![
            line@[j as int],
        ]);
        assert(line@.subrange(i as int, j as int) + (seq![line@[j as int]] + take_word(
            line@.subrange(j + 1, n as int),
        )) =~= line@.subrange(i as int, j + 1) + take_word(line@.subrange(j + 1, n as int)));
        j = j + 1;
    }
    assert(line@.subrange(i as int, j as int) + take_word(line@.subrange(j as int, n as int))
        =~= line@.subrange(i as int, j as int));
    line.substring_char(i, j).to_owned()
}

/// The library that one line of the lister's output names, if any.
fn line_library(line: &str) -> (r: Option<String>)
    ensures
        option_view(r) == library_of_line(line@),
{
    let token = first_token(line);
    if token.as_str().unicode_len() == 0 {
        None
    } else {
        base_name(token.as_str())
    }
}

/// The shared libraries that the dependency lister's output names, one for
/// each line that yields one, in the order of the lines.
pub fn library_names(lister_output: &str) -> (r: Vec<String>)
    ensures
        string_views(r@) == libraries_of_output(lister_output@),
{
    let n = lister_output.unicode_len();
    let ghost s = lister_output@;
    let mut names: Vec<String> = Vec::new();
    let mut start: usize = 0;
    let mut i: usize = 0;
    assert(s.subrange(0, 0) =~= seq![]);
    assert(split_lines(s.subrange(0, 0)).drop_last() =~= seq![]);
    while i < n
        invariant
            n == s.len(),
            s == lister_output@,
            start <= i <= n,
            split_lines(s.subrange(0, i as int)).len() >= 1,
            split_lines(s.subrange(0, i as int)).last() == s.subrange(start as int, i as int),
            string_views(names@) == libraries_of_lines(
                split_lines(s.subrange(0, i as int)).drop_last(),
            ),
        decreases n - i,
    {
        let ghost prev = split_lines(s.subrange(0, i as int));
        let ghost cur = s.subrange(0, i + 1);
        assert(cur.drop_last() =~= s.subrange(0, i as int));
        let c = lister_output.get_char(i);
        if c == '\n' {
            let line = lister_output.substring_char(start, i);
            let lib = line_library(line);
            assert(split_lines(cur) == prev.push(seq![]));
            assert(split_lines(cur).drop_last() =~= prev);
            assert(prev =~= prev.drop_last().push(prev.last()));
            match lib {
                Some(l) => {
                    names.push(l);
                },
                None => {},
            }
            assert(string_views(names@) =~= libraries_of_lines(prev));
            start = i + 1;
            assert(s.subrange(start as int, i + 1) =~= seq![]);
        } else {
            assert(split_lines(cur) == prev.update(prev.len() - 1, prev.last().push(c)));
            assert(split_lines(cur).drop_last() =~= prev.drop_last());
            assert(s.subrange(start as int, i + 1) =~= s.subrange(start as int, i as int).push(c));
        }
        i = i + 1;
    }
    let ghost all = split_lines(s);
    assert(s.subrange(0, n as int) =~= s);
    assert(all =~= all.drop_last().push(all.last()));
    let line = lister_output.substring_char(start, n);
    let lib = line_library(line);
    match lib {
        Some(l) => {
            names.push(l);
        },
        None => {},
    }
    assert(string_views(names@) =~= libraries_of_lines(all));
    names
}


/// The text before the first colon: the package in a reply of the package
/// database's ownership query.
pub open spec fn package_of(reply: Seq<char>) -> Seq<char>
    decreases reply.len(),
{
    if reply.len() == 0 || reply[0] == ':' {
        seq![]
    } else {
        seq![reply[0]] + package_of(reply.drop_first())
    }
}

/// The packages that own the libraries, from the replies of the ownership
/// queries; a failed query (`None`) and an empty name give none.
pub open spec fn owned_packages(replies: Seq<Option<Seq<char>>>) -> Set<Seq<char>> {
    Set::new(
        |p: Seq<char>|
            p.len() > 0 && exists|i: int|
                0 <= i < replies.len() && #[trigger] replies[i] is Some && package_of(
                    replies[i]->0,
                ) == p,
    )
}

pub open spec fn strictly_sorted(s: Seq<Seq<char>>) -> bool {
    forall|i: int, j: int| 0 <= i < j < s.len() ==> seq_lt(#[trigger] s[i], #[trigger] s[j])
}

/// `list` is the dependency list for `replies`: the packages they name and
/// `curl`, each once, in lexicographic order.
pub open spec fn is_dependency_list(replies: Seq<Option<Seq<char>>>, list: Seq<Seq<char>>) -> bool {
    &&& strictly_sorted(list)
    &&& list.to_set() == owned_packages(replies).insert("curl"@)
}

/// The package named by a reply of the ownership query: its text before the
/// first colon.
pub fn package_name(reply: &str) -> (r: String)
    ensures
        r@ == package_of(reply@),
{
    let n = reply.unicode_len();
    let mut j: usize = 0;
    assert(reply@.subrange(0, n as int) =~= reply@);
    assert(reply@.subrange(0, 0) =~= seq![]);
    while j < n && reply.get_char(j) != ':'
        invariant
            n == reply@.len(),
            j <= n,
            package_of(reply@) == reply@.subrange(0, j as int) + package_of(
                reply@.subrange(j as int, n as int),
            ),
        decreases n - j,
    {
        assert(reply@.subrange(j as int, n as int).drop_first() =~= reply@.subrange(
            j + 1,
            n as int,
        ));
        assert(reply@.subrange(0, j as int) + (seq![reply@[j as int]] + package_of(
            reply@.subrange(j + 1, n as int),
        )) =~= reply@.subrange(0, j + 1) + package_of(reply@.subrange(j + 1, n as int)));
        j = j + 1;
    }
    assert(reply@.subrange(0, j as int) + package_of(reply@.subrange(j as int, n as int))
        =~= reply@.subrange(0, j as int));
    reply.substring_char(0, j).to_owned()
}

/// Adds `x` to a strictly sorted list, keeping it strictly sorted.
fn insert_sorted(v: &mut Vec<String>, x: String)
    requires
        strictly_sorted(string_views(old(v)@)),
    ensures
        strictly_sorted(string_views(final(v)@)),
        string_views(final(v)@).to_set() == string_views(old(v)@).to_set().insert(x@),
{
    let ghost old_v = string_views(v@);
    let mut k: usize = 0;
    while k < v.len() && str_lt(v[k].as_str(), x.as_str())
        invariant
            k <= v.len(),
            string_views(v@) == old_v,
            forall|i: int| 0 <= i < k ==> seq_lt(#[trigger] old_v[i], x@),
        decreases v.len() - k,
    {
        k = k + 1;
    }
    if k < v.len() && str_eq(v[k].as_str(), x.as_str()) {
        assert(old_v.to_set().insert(x@) =~= old_v.to_set()) by {
            assert(old_v[k as int] == x@);
        }
        return;
    }
    proof {
        if k < old_v.len() {
            lemma_lt_total(old_v[k as int], x@);
        }
        assert forall|j: int| k <= j < old_v.len() implies seq_lt(x@, #[trigger] old_v[j]) by {
            if j > k {
                lemma_lt_transitive(x@, old_v[k as int], old_v[j]);
            }
        }
    }
    let ghost xv = x@;
    v.insert(k, x);
    let ghost new_v = string_views(v@);
    assert(new_v =~= old_v.insert(k as int, xv));
    assert forall|i: int, j: int| 0 <= i < j < new_v.len() implies seq_lt(
        #[trigger] new_v[i],
        #[trigger] new_v[j],
    ) by {
        if j < k {
            assert(old_v[i] == new_v[i] && old_v[j] == new_v[j]);
        } else if i < k && j == k {
        } else if i < k && j > k {
            assert(old_v[j - 1] == new_v[j]);
        } else if i == k {
            assert(old_v[j - 1] == new_v[j]);
        } else {
            assert(old_v[i - 1] == new_v[i]);
            assert(old_v[j - 1] == new_v[j]);
        }
    }
    assert(new_v.to_set() =~= old_v.to_set().insert(xv)) by {
        assert forall|p: Seq<char>| new_v.contains(p) implies #[trigger] old_v.to_set().insert(
            xv,
        ).contains(p) by {
            let i = choose|i: int| 0 <= i < new_v.len() && new_v[i] == p;
            if i < k {
                assert(old_v[i] == p);
            } else if i > k {
                assert(old_v[i - 1] == p);
            }
        }
        assert forall|p: Seq<char>| #[trigger] old_v.to_set().insert(xv).contains(p) implies new_v.contains(p) by {
            if p == xv {
                assert(new_v[k as int] == p);
            } else {
                assert(old_v.contains(p));
                let i = choose|i: int| 0 <= i < old_v.len() && old_v[i] == p;
                if i < k {
                    assert(new_v[i] == p);
                } else {
                    assert(new_v[i + 1] == p);
                }
            }
        }
    }
}

/// The dependency list from the replies of the ownership queries, one reply
/// per library, `None` where the query failed: every package named, and
/// `curl`, sorted and without repetition. Failed queries and empty names are
/// skipped.
pub fn dependency_list(replies: &Vec<Option<String>>) -> (r: Vec<String>)
    ensures
        is_dependency_list(option_views(replies@), string_views(r@)),
{
    let ghost rs = option_views(replies@);
    let mut list: Vec<String> = Vec::new();
    assert(string_views(list@).to_set() =~= Set::empty());
    insert_sorted(&mut list, String::from_str("curl"));
    let mut i: usize = 0;
    while i < replies.len()
        invariant
            i <= replies.len(),
            rs == option_views(replies@),
            strictly_sorted(string_views(list@)),
            string_views(list@).to_set() == owned_packages(rs.take(i as int)).insert("curl"@),
        decreases replies.len() - i,
    {
        let ghost before = string_views(list@).to_set();
        assert(rs.take(i + 1) =~= rs.take(i as int).push(rs[i as int]));
        match &replies[i] {
            Some(reply) => {
                let p = package_name(reply.as_str());
                if p.as_str().unicode_len() > 0 {
                    insert_sorted(&mut list, p);
                }
                assert(string_views(list@).to_set() =~= owned_packages(rs.take(i + 1)).insert(
                    "curl"@,
                )) by {
                    let ta = rs.take(i as int);
                    let tb = rs.take(i + 1);
                    assert(tb[i as int] is Some && package_of(tb[i as int]->0) == package_of(reply@));
                    assert forall|q: Seq<char>| #[trigger] owned_packages(ta).contains(q) implies owned_packages(tb).contains(q) by {
                        let k = choose|k: int| 0 <= k < ta.len() && #[trigger] ta[k] is Some && package_of(ta[k]->0) == q;
                        assert(tb[k] == ta[k]);
                    }
                    assert forall|q: Seq<char>| #[trigger] owned_packages(tb).contains(q) && q != package_of(reply@) implies owned_packages(ta).contains(q) by {
                        let k = choose|k: int| 0 <= k < tb.len() && #[trigger] tb[k] is Some && package_of(tb[k]->0) == q;
                        assert(k != i);
                        assert(tb[k] == ta[k]);
                    }
                }
            },
            None => {
                assert(owned_packages(rs.take(i + 1)) =~= owned_packages(rs.take(i as int))) by {
                    let ta = rs.take(i as int);
                    let tb = rs.take(i + 1);
                    assert forall|q: Seq<char>| #[trigger] owned_packages(ta).contains(q) implies owned_packages(tb).contains(q) by {
                        let k = choose|k: int| 0 <= k < ta.len() && #[trigger] ta[k] is Some && package_of(ta[k]->0) == q;
                        assert(tb[k] == ta[k]);
                    }
                    assert forall|q: Seq<char>| #[trigger] owned_packages(tb).contains(q) implies owned_packages(ta).contains(q) by {
                        let k = choose|k: int| 0 <= k < tb.len() && #[trigger] tb[k] is Some && package_of(tb[k]->0) == q;
                        assert(tb[k] == ta[k]);
                    }
                }
            },
        }
        i = i + 1;
    }
    assert(rs.take(replies.len() as int) =~= rs);
    list
}


/// The lines of `s`, joined by line feeds, with none after the last.
pub open spec fn join_lines(s: Seq<Seq<char>>) -> Seq<char>
    decreases s.len(),
{
    if s.len() == 0 {
        seq![]
    } else if s.len() == 1 {
        s[0]
    } else {
        join_lines(s.drop_last()) + "\n"@ + s.last()
    }
}

/// The text of the dependency manifest: one package per line.
pub fn dependency_file_text(list: &Vec<String>) -> (r: String)
    ensures
        r@ == join_lines(string_views(list@)),
{
    let ghost names = string_views(list@);
    let mut text = String::new();
    let mut i: usize = 0;
    assert(names.take(0) =~= seq![]);
    while i < list.len()
        invariant
            i <= list.len(),
            names == string_views(list@),
            text@ == join_lines(names.take(i as int)),
        decreases list.len() - i,
    {
        assert(names.take(i + 1).drop_last() =~= names.take(i as int));
        if i > 0 {
            text.append("\n");
        } else {
            assert(text@ + list[0]@ =~= list[0]@);
        }
        text.append(list[i].as_str());
        i = i + 1;
    }
    assert(names.take(list.len() as int) =~= names);
    text
}

proof fn lemma_sorted_drop_first(a: Seq<Seq<char>>)
    requires
        strictly_sorted(a),
        a.len() > 0,
    ensures
        strictly_sorted(a.drop_first()),
        a.drop_first().to_set() == a.to_set().remove(a[0]),
{
    let d = a.drop_first();
    assert forall|i: int, j: int| 0 <= i < j < d.len() implies seq_lt(#[trigger] d[i], #[trigger] d[j]) by {
        assert(d[i] == a[i + 1] && d[j] == a[j + 1]);
    }
    assert forall|p: Seq<char>| #[trigger] d.to_set().contains(p) <==> a.to_set().remove(a[0]).contains(p) by {
        if d.contains(p) {
            let i = choose|i: int| 0 <= i < d.len() && d[i] == p;
            assert(a[i + 1] == p);
            assert(seq_lt(a[0], a[i + 1]));
            lemma_lt_irreflexive(p);
        }
        if a.to_set().remove(a[0]).contains(p) {
            let i = choose|i: int| 0 <= i < a.len() && a[i] == p;
            assert(i != 0);
            assert(d[i - 1] == p);
        }
    }
    assert(d.to_set() =~= a.to_set().remove(a[0]));
}

/// Two strictly sorted sequences with the same elements are equal.
proof fn lemma_sorted_unique(a: Seq<Seq<char>>, b: Seq<Seq<char>>)
    requires
        strictly_sorted(a),
        strictly_sorted(b),
        a.to_set() == b.to_set(),
    ensures
        a == b,
    decreases a.len(),
{
    if a.len() == 0 || b.len() == 0 {
        if a.len() > 0 {
            assert(a.to_set().contains(a[0]));
        }
        if b.len() > 0 {
            assert(b.to_set().contains(b[0]));
        }
        assert(a =~= b);
    } else {
        assert(b.to_set().contains(a[0]));
        assert(a.to_set().contains(b[0]));
        let k = choose|k: int| 0 <= k < b.len() && b[k] == a[0];
        let m = choose|m: int| 0 <= m < a.len() && a[m] == b[0];
        if k > 0 {
            assert(seq_lt(b[0], b[k]));
            if m > 0 {
                assert(seq_lt(a[0], a[m]));
                lemma_lt_asymmetric(a[0], b[0]);
            } else {
                lemma_lt_irreflexive(b[0]);
            }
        }
        lemma_sorted_drop_first(a);
        lemma_sorted_drop_first(b);
        lemma_sorted_unique(a.drop_first(), b.drop_first());
        assert(a =~= seq![a[0]] + a.drop_first());
        assert(b =~= seq![b[0]] + b.drop_first());
    }
}

/// A dependency list holds `curl`, no empty name and no name twice, and is
/// in lexicographic order.
pub proof fn dependency_list_shape(replies: Seq<Option<Seq<char>>>, list: Seq<Seq<char>>)
    requires
        is_dependency_list(replies, list),
    ensures
        list.contains("curl"@),
        forall|i: int| 0 <= i < list.len() ==> (#[trigger] list[i]).len() > 0,
        forall|i: int, j: int| 0 <= i < j < list.len() ==> seq_lt(#[trigger] list[i], #[trigger] list[j]),
        forall|i: int, j: int| 0 <= i < j < list.len() ==> #[trigger] list[i] != #[trigger] list[j],
{
    reveal_strlit("curl");
    assert(list.to_set().contains("curl"@));
    assert forall|i: int| 0 <= i < list.len() implies (#[trigger] list[i]).len() > 0 by {
        assert(list.to_set().contains(list[i]));
    }
    assert forall|i: int, j: int| 0 <= i < j < list.len() implies #[trigger] list[i] != #[trigger] list[j] by {
        assert(seq_lt(list[i], list[j]));
        lemma_lt_irreflexive(list[i]);
    }
}

/// The dependency list is fixed by the replies alone, whatever their order:
/// the same replies, in any order, give the same list.
pub proof fn dependency_list_order_independent(
    a: Seq<Option<Seq<char>>>,
    b: Seq<Option<Seq<char>>>,
    list_a: Seq<Seq<char>>,
    list_b: Seq<Seq<char>>,
)
    requires
        a.to_multiset() == b.to_multiset(),
        is_dependency_list(a, list_a),
        is_dependency_list(b, list_b),
    ensures
        list_a == list_b,
{
    a.to_multiset_ensures();
    b.to_multiset_ensures();
    assert forall|p: Seq<char>| #[trigger] owned_packages(a).contains(p) implies owned_packages(b).contains(p) by {
        let i = choose|i: int| 0 <= i < a.len() && #[trigger] a[i] is Some && package_of(a[i]->0) == p;
        assert(a.contains(a[i]));
        assert(a.to_multiset().count(a[i]) > 0);
        assert(b.to_multiset().count(a[i]) > 0);
        assert(b.contains(a[i]));
        let j = choose|j: int| 0 <= j < b.len() && b[j] == a[i];
        assert(b[j] is Some);
    }
    assert forall|p: Seq<char>| #[trigger] owned_packages(b).contains(p) implies owned_packages(a).contains(p) by {
        let i = choose|i: int| 0 <= i < b.len() && #[trigger] b[i] is Some && package_of(b[i]->0) == p;
        assert(b.contains(b[i]));
        assert(b.to_multiset().count(b[i]) > 0);
        assert(a.to_multiset().count(b[i]) > 0);
        assert(a.contains(b[i]));
        let j = choose|j: int| 0 <= j < a.len() && a[j] == b[i];
        assert(a[j] is Some);
    }
    assert(owned_packages(a) =~= owned_packages(b));
    lemma_sorted_unique(list_a, list_b);
}

/// A library whose ownership query failed leaves no trace: a failed reply
/// added anywhere gives the same list, and no error.
pub proof fn failed_queries_leave_no_trace(
    a: Seq<Option<Seq<char>>>,
    k: int,
    list_a: Seq<Seq<char>>,
    list_b: Seq<Seq<char>>,
)
    requires
        0 <= k <= a.len(),
        is_dependency_list(a, list_a),
        is_dependency_list(a.insert(k, None), list_b),
    ensures
        list_a == list_b,
{
    let b = a.insert(k, None);
    assert forall|p: Seq<char>| #[trigger] owned_packages(a).contains(p) implies owned_packages(b).contains(p) by {
        let i = choose|i: int| 0 <= i < a.len() && #[trigger] a[i] is Some && package_of(a[i]->0) == p;
        if i < k {
            assert(b[i] == a[i]);
        } else {
            assert(b[i + 1] == a[i]);
        }
    }
    assert forall|p: Seq<char>| #[trigger] owned_packages(b).contains(p) implies owned_packages(a).contains(p) by {
        let i = choose|i: int| 0 <= i < b.len() && #[trigger] b[i] is Some && package_of(b[i]->0) == p;
        if i < k {
            assert(b[i] == a[i]);
        } else {
            assert(i != k);
            assert(b[i] == a[i - 1]);
        }
    }
    assert(owned_packages(a) =~= owned_packages(b));
    lemma_sorted_unique(list_a, list_b);
}

} // verus!
