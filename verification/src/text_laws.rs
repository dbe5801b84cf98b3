//! What holds of texts, maps of texts, paths, identities and digests.

use vstd::prelude::*;

use crate::digest;
use crate::digest::DigestError;
use crate::ident;
use crate::ident::SandboxId;
use crate::journal_laws;
use crate::json;
use crate::json::Json;
use crate::paths;
use crate::text;
use crate::text_map;
use crate::text_map::TextMap;

verus! {

/// The value of a lower-case hexadecimal digit.
pub open spec fn digit_value(c: char) -> int {
    if '0' <= c <= '9' {
        c as int - '0' as int
    } else {
        c as int - 'a' as int + 10
    }
}

/// A digest is valid exactly if it consists of 64 digits, of 0 to 9 and a to f.
pub proof fn law_digests_consist_of_digits(text: &str, valid: bool)
    requires
        call_ensures(digest::valid_digest, (text,), valid),
    ensures
        valid <==> journal_laws::sixty_four_digits(text@),
{
}

/// The text of a hash gives every byte of it by two digits, the higher one first,
/// and is a valid digest.
pub proof fn law_hashes_are_written_byte_by_byte(bytes: &[u8], text: String, i: int)
    requires
        call_ensures(digest::sha256_hex, (bytes,), text),
        0 <= i < 32,
    ensures
        journal_laws::sixty_four_digits(text@),
        16 * digit_value(text@[2 * i]) + digit_value(text@[2 * i + 1]) == digest::sha256(
            bytes@,
        )[i],
        digest::sha256(bytes@).len() == 32,
{
    let hash = digest::sha256(bytes@);
    assert(digest::hex_text(hash).len() == 2 * hash.len());
    assert((2 * i) % 2 == 0 && (2 * i) / 2 == i);
    assert((2 * i + 1) % 2 == 1 && (2 * i + 1) / 2 == i);
    assert(text@[2 * i] == digest::hex_char(hash[i] as int / 16));
    assert(text@[2 * i + 1] == digest::hex_char(hash[i] as int % 16));
}

/// A request is digested from its canonical form: two requests of one form have
/// one digest, and two requests of one digest have forms that are written alike,
/// collisions of the hash aside.
pub proof fn law_digests_tell_requests_apart(
    a: Json,
    b: Json,
    form_a: Json,
    form_b: Json,
    digest_a: Result<String, DigestError>,
    digest_b: Result<String, DigestError>,
)
    requires
        call_ensures(json::canonicalize, (a,), form_a),
        call_ensures(json::canonicalize, (b,), form_b),
        call_ensures(digest::request_digest, (a,), digest_a),
        call_ensures(digest::request_digest, (b,), digest_b),
    ensures
        form_a@ == form_b@ ==> (digest_a is Ok <==> digest_b is Ok),
        form_a@ == form_b@ && digest_a is Ok ==> (digest_a->Ok_0)@ == (digest_b->Ok_0)@,
        digest_a is Ok && digest_b is Ok && (digest_a->Ok_0)@ == (digest_b->Ok_0)@
            ==> digest::written_alike(form_a@, form_b@) || digest::is_collision(
            digest::json_bytes(form_a@)->0,
            digest::json_bytes(form_b@)->0,
        ),
        digest_a matches Ok(text) ==> journal_laws::sixty_four_digits(text@),
{
    if digest_a is Ok && digest_b is Ok && (digest_a->Ok_0)@ == (digest_b->Ok_0)@ {
        assert(digest::digest_of(a@) == Some((digest_b->Ok_0)@));
    }
}

/// The digest of a request is the hash of what its canonical form is written as.
pub proof fn law_digest_is_the_hash_of_the_form(
    value: Json,
    form: Json,
    written: &[u8],
    hash: String,
    result: Result<String, DigestError>,
)
    requires
        call_ensures(json::canonicalize, (value,), form),
        digest::json_bytes(form@) == Some(written@),
        call_ensures(digest::sha256_hex, (written,), hash),
        call_ensures(digest::request_digest, (value,), result),
    ensures
        result matches Ok(digest) && digest@ == hash@,
{
}

/// The identity of a sandbox is read back from its text, and two sandboxes have
/// two texts. A new identity is of version 7, and none is greater than the
/// greatest.
pub proof fn law_identities_are_read_back(
    a: SandboxId,
    b: SandboxId,
    text_a: String,
    text_b: String,
    spelled: &str,
    read: Option<SandboxId>,
    fresh: SandboxId,
    greatest: SandboxId,
)
    requires
        call_ensures(SandboxId::to_text, (a,), text_a),
        call_ensures(SandboxId::to_text, (b,), text_b),
        spelled@ == text_a@,
        call_ensures(SandboxId::parse_str, (spelled,), read),
        call_ensures(SandboxId::new, (), fresh),
        call_ensures(SandboxId::max, (), greatest),
    ensures
        read == Some(a),
        text_a@ == text_b@ <==> a == b,
        ident::is_v7(fresh.bits),
        a.bits <= greatest.bits,
        text_a@.len() == 36,
{
    assert(spelled@ == a.text());
    if text_a@ == text_b@ {
        ident::law_text_identifies(a, b);
    }
}

/// Whether one text comes before another: at the first place where they differ it
/// has the smaller character, or has ended.
pub open spec fn comes_before(a: Seq<char>, b: Seq<char>) -> bool {
    exists|n: int| #[trigger] differ_first_at(a, b, n) && (n == a.len() || a[n] < b[n])
}

/// Whether two texts agree up to a place, where the second goes on.
pub open spec fn differ_first_at(a: Seq<char>, b: Seq<char>, n: int) -> bool {
    &&& 0 <= n <= a.len()
    &&& n < b.len()
    &&& forall|i: int| 0 <= i < n ==> a[i] == b[i]
    &&& n < a.len() ==> a[n] != b[n]
}

proof fn lemma_lex(a: Seq<char>, b: Seq<char>)
    ensures
        text::lex_less(a, b) <==> comes_before(a, b),
    decreases a.len(),
{
    if b.len() == 0 {
    } else if a.len() == 0 {
        assert(differ_first_at(a, b, 0));
    } else if a[0] != b[0] {
        if text::lex_less(a, b) {
            assert(differ_first_at(a, b, 0));
        }
        if comes_before(a, b) {
            let n = choose|n: int|
                #[trigger] differ_first_at(a, b, n) && (n == a.len() || a[n] < b[n]);
            assert(n == 0);
        }
    } else {
        let x = a.skip(1);
        let y = b.skip(1);
        lemma_lex(x, y);
        if comes_before(x, y) {
            let n = choose|n: int|
                #[trigger] differ_first_at(x, y, n) && (n == x.len() || x[n] < y[n]);
            assert forall|i: int| 0 <= i < n + 1 implies a[i] == b[i] by {
                if i > 0 {
                    assert(x[i - 1] == y[i - 1]);
                }
            }
            if n < x.len() {
                assert(a[n + 1] == x[n] && b[n + 1] == y[n]);
            }
            assert(differ_first_at(a, b, n + 1));
        }
        if comes_before(a, b) {
            let n = choose|n: int|
                #[trigger] differ_first_at(a, b, n) && (n == a.len() || a[n] < b[n]);
            assert(n > 0);
            assert forall|i: int| 0 <= i < n - 1 implies x[i] == y[i] by {
                assert(a[i + 1] == b[i + 1]);
            }
            if n < a.len() {
                assert(x[n - 1] == a[n] && y[n - 1] == b[n]);
            }
            assert(differ_first_at(x, y, n - 1));
        }
    }
}

/// Texts are ordered by the first character in which they differ.
pub proof fn law_texts_are_ordered_by_their_first_difference(a: &str, b: &str, less: bool)
    requires
        call_ensures(text::text_less, (a, b), less),
    ensures
        less <==> comes_before(a@, b@),
{
    lemma_lex(a@, b@);
}

/// The number that decimal digits denote.
pub open spec fn number_of(digits: Seq<char>) -> int
    decreases digits.len(),
{
    if digits.len() == 0 {
        0
    } else {
        10 * number_of(digits.drop_last()) + (digits.last() as int - '0' as int)
    }
}

proof fn lemma_decimal(n: nat)
    ensures
        number_of(text::decimal(n)) == n,
        text::decimal(n).len() > 0,
        forall|i: int| 0 <= i < text::decimal(n).len() ==> '0' <= #[trigger] text::decimal(n)[i] <= '9',
        n > 0 ==> text::decimal(n)[0] != '0',
    decreases n,
{
    if n < 10 {
        let digits = text::decimal(n);
        assert(digits.drop_last() =~= Seq::<char>::empty());
        assert(number_of(digits.drop_last()) == 0);
    } else {
        lemma_decimal(n / 10);
        let digits = text::decimal(n);
        assert(digits.drop_last() =~= text::decimal(n / 10));
    }
}

/// A number is written in decimal digits that denote it, without leading zeros.
pub proof fn law_numbers_are_written_in_decimal(n: usize, text: String)
    requires
        call_ensures(text::decimal_string, (n,), text),
    ensures
        number_of(text@) == n,
        text@.len() > 0,
        forall|i: int| 0 <= i < text@.len() ==> '0' <= #[trigger] text@[i] <= '9',
        n > 0 ==> text@[0] != '0',
{
    lemma_decimal(n as nat);
}

/// Joining no texts gives nothing, joining one gives that text, and one more text
/// comes behind the others and a separator.
pub proof fn law_joined_texts_keep_their_order(
    parts: Vec<String>,
    separator: &str,
    last: String,
    more: Vec<String>,
    joined: String,
    longer: String,
)
    requires
        call_ensures(text::join, (&parts, separator), joined),
        more@ == parts@.push(last),
        call_ensures(text::join, (&more, separator), longer),
    ensures
        parts@.len() == 0 ==> joined@.len() == 0 && longer@ == last@,
        parts@.len() > 0 ==> longer@ == joined@ + separator@ + last@,
{
    let all = text::texts(more@);
    assert(all.drop_last() =~= text::texts(parts@));
    assert(all.last() == last@);
    assert(text::texts(parts@).len() == parts@.len());
}

/// Copies of texts say the same, and the characters of a text are the text.
pub proof fn law_copies_say_the_same(
    parts: Vec<String>,
    copy: Vec<String>,
    i: int,
    text: &str,
    chars: Vec<char>,
)
    requires
        call_ensures(text::copy_texts, (&parts,), copy),
        call_ensures(text::char_vec, (text,), chars),
        0 <= i < parts@.len(),
    ensures
        copy@.len() == parts@.len(),
        copy@[i]@ == parts@[i]@,
        chars@ == text@,
{
    assert(text::texts(copy@).len() == copy@.len());
    assert(text::texts(parts@).len() == parts@.len());
    assert(text::texts(copy@)[i] == text::texts(parts@)[i]);
}

/// A pair that is put into a map is found there, and every other key keeps its
/// value. A map has a key exactly if it has a value for it.
pub proof fn law_maps_keep_what_is_put_into_them(
    map: TextMap,
    key: String,
    value: String,
    longer: TextMap,
    spelled: &str,
    found: Option<&String>,
    other: &str,
    before: Option<&String>,
    after: Option<&String>,
    has: bool,
)
    requires
        call_ensures(TextMap::with, (map, key, value), longer),
        spelled@ == key@,
        call_ensures(TextMap::get, (&longer, spelled), found),
        other@ != key@,
        call_ensures(TextMap::get, (&map, other), before),
        call_ensures(TextMap::get, (&longer, other), after),
        call_ensures(TextMap::contains_key, (&map, other), has),
    ensures
        found matches Some(kept) && kept@ == value@,
        before is Some <==> after is Some,
        before matches Some(kept) ==> (after->0)@ == kept@,
        has <==> before is Some,
{
}

/// A new map has no key, and a map of pairs has the value of the last pair with a
/// key.
pub proof fn law_maps_are_made_of_pairs(
    empty: TextMap,
    none: bool,
    size: usize,
    pairs: Vec<(String, String)>,
    map: TextMap,
    i: int,
    spelled: &str,
    found: Option<&String>,
    missing: &str,
    not_found: Option<&String>,
)
    requires
        call_ensures(TextMap::new, (), empty),
        call_ensures(TextMap::is_empty, (&empty,), none),
        call_ensures(TextMap::len, (&empty,), size),
        call_ensures(TextMap::from_pairs, (pairs,), map),
        0 <= i < pairs@.len(),
        forall|j: int| i < j < pairs@.len() ==> (#[trigger] pairs@[j]).0@ != pairs@[i].0@,
        spelled@ == pairs@[i].0@,
        call_ensures(TextMap::get, (&map, spelled), found),
        forall|j: int| 0 <= j < pairs@.len() ==> (#[trigger] pairs@[j]).0@ != missing@,
        call_ensures(TextMap::get, (&map, missing), not_found),
    ensures
        none && size == 0,
        found matches Some(value) && value@ == pairs@[i].1@,
        not_found is None,
{
    let all = text_map::pairs_view(pairs@);
    assert forall|j: int| i < j < all.len() implies (#[trigger] all[j]).0 != all[i].0 by {
        assert(pairs@[j].0@ != pairs@[i].0@);
    }
    lemma_pairs_map_last(all, i);
    assert forall|j: int| 0 <= j < all.len() implies (#[trigger] all[j]).0 != missing@ by {
        assert(pairs@[j].0@ != missing@);
    }
    lemma_pairs_map_missing(all, missing@);
}

proof fn lemma_pairs_map_last(pairs: Seq<(Seq<char>, Seq<char>)>, i: int)
    requires
        0 <= i < pairs.len(),
        forall|j: int| i < j < pairs.len() ==> (#[trigger] pairs[j]).0 != pairs[i].0,
    ensures
        text_map::pairs_map(pairs).contains_key(pairs[i].0),
        text_map::pairs_map(pairs)[pairs[i].0] == pairs[i].1,
    decreases pairs.len(),
{
    if i < pairs.len() - 1 {
        let rest = pairs.drop_last();
        assert forall|j: int| i < j < rest.len() implies (#[trigger] rest[j]).0 != rest[i].0 by {
            assert(pairs[j].0 != pairs[i].0);
        }
        lemma_pairs_map_last(rest, i);
        assert(pairs[pairs.len() - 1].0 != pairs[i].0);
    }
}

proof fn lemma_pairs_map_missing(pairs: Seq<(Seq<char>, Seq<char>)>, key: Seq<char>)
    requires
        forall|j: int| 0 <= j < pairs.len() ==> (#[trigger] pairs[j]).0 != key,
    ensures
        !text_map::pairs_map(pairs).contains_key(key),
    decreases pairs.len(),
{
    if pairs.len() > 0 {
        let rest = pairs.drop_last();
        assert forall|j: int| 0 <= j < rest.len() implies (#[trigger] rest[j]).0 != key by {
            assert(pairs[j].0 != key);
        }
        lemma_pairs_map_missing(rest, key);
        assert(pairs[pairs.len() - 1].0 != key);
    }
}

/// Keys and values are listed in one order, and each value is that of its key. A
/// copy of a map is the map.
pub proof fn law_maps_list_their_pairs(
    map: TextMap,
    size: usize,
    none: bool,
    index: usize,
    key: &String,
    value: &String,
    values: Vec<String>,
    spelled: &str,
    found: Option<&String>,
    copy: TextMap,
    copied: Option<&String>,
)
    requires
        call_ensures(TextMap::len, (&map,), size),
        call_ensures(TextMap::is_empty, (&map,), none),
        index < size,
        call_ensures(TextMap::key_at, (&map, index), key),
        call_ensures(TextMap::value_at, (&map, index), value),
        call_ensures(TextMap::values, (&map,), values),
        spelled@ == key@,
        call_ensures(TextMap::get, (&map, spelled), found),
        call_ensures(<TextMap as Clone>::clone, (&map,), copy),
        call_ensures(TextMap::get, (&copy, spelled), copied),
    ensures
        !none,
        values@.len() == size,
        values@[index as int]@ == value@,
        found matches Some(kept) && kept@ == value@,
        copied matches Some(kept) && kept@ == value@,
        copy@ == map@,
{
}

/// Whether a text can name an entry of a directory: it is not empty, is no dot and
/// has no separator.
pub open spec fn is_name(name: Seq<char>) -> bool {
    &&& name.len() > 0
    &&& name != "."@
    &&& forall|i: int| 0 <= i < name.len() ==> #[trigger] name[i] != '/'
}

proof fn lemma_segments_name(head: Seq<char>, name: Seq<char>)
    requires
        head.len() == 0 || head.last() == '/',
        forall|i: int| 0 <= i < name.len() ==> #[trigger] name[i] != '/',
    ensures
        paths::segments(head + name) =~= paths::segments(head).drop_last().push(name),
        paths::segments(head).len() > 0,
        paths::segments(head).last() =~= Seq::<char>::empty(),
    decreases name.len(),
{
    if head.len() > 0 {
        assert(paths::segments(head) == paths::segments(head.drop_last()).push(Seq::empty()));
    }
    if name.len() == 0 {
        assert(head + name =~= head);
        assert(name =~= Seq::<char>::empty());
    } else {
        let shorter = name.drop_last();
        assert forall|i: int| 0 <= i < shorter.len() implies #[trigger] shorter[i] != '/' by {
            assert(name[i] != '/');
        }
        lemma_segments_name(head, shorter);
        let whole = head + name;
        assert(whole.drop_last() =~= head + shorter);
        assert(whole.last() == name[name.len() - 1]);
        let before = paths::segments(head + shorter);
        assert(before.last() == shorter);
        assert(before.drop_last() =~= paths::segments(head).drop_last());
        assert(shorter.push(name.last()) =~= name);
    }
}

proof fn lemma_components_entry(directory: Seq<char>, name: Seq<char>)
    requires
        is_name(name),
    ensures
        paths::components(paths::entry_path(directory, name)) =~= paths::components(
            directory,
        ).push(name),
{
    let head = if directory.len() == 0 || directory.last() == '/' {
        directory
    } else {
        directory.push('/')
    };
    let path = head + name;
    assert(path == paths::entry_path(directory, name));
    lemma_segments_name(head, name);
    let parts = paths::segments(path);
    let own = paths::segments(directory);
    assert(parts.drop_last() =~= paths::segments(head).drop_last());
    assert(parts.last() == name);
    assert(paths::is_component(name, parts.len() - 1));
    assert(paths::component_segments(parts) == paths::component_segments(parts.drop_last()).push(
        name,
    ));
    if directory.len() > 0 && directory.last() != '/' {
        assert(head.drop_last() =~= directory);
        assert(paths::segments(head) == own.push(Seq::empty()));
        assert(parts.drop_last() =~= own);
    } else {
        assert(own.last() =~= Seq::<char>::empty());
        assert(!paths::is_component(own.last(), own.len() - 1));
        assert(paths::component_segments(own) == paths::component_segments(own.drop_last()));
        assert(parts.drop_last() =~= own.drop_last());
    }
    assert(paths::component_segments(parts.drop_last()) == paths::component_segments(own));
    if directory.len() > 0 {
        assert(path[0] == directory[0]);
    } else {
        assert(path[0] == name[0]);
    }
    let root = seq!["/"@];
    assert(root + paths::component_segments(own).push(name) =~= (root
        + paths::component_segments(own)).push(name));
}

/// A path overlaps itself, its own entries, and whatever overlaps it. Two entries
/// of a directory overlap exactly if they have one name: a name that starts like
/// another one is no part of it.
pub proof fn law_paths_overlap_by_whole_names(
    directory: &str,
    a: &str,
    b: &str,
    path_a: String,
    path_b: String,
    spelled_a: &str,
    spelled_b: &str,
    siblings: bool,
    turned: bool,
    inside: bool,
    itself: bool,
)
    requires
        is_name(a@),
        is_name(b@),
        call_ensures(paths::path_of_entry, (directory, a), path_a),
        call_ensures(paths::path_of_entry, (directory, b), path_b),
        spelled_a@ == path_a@,
        spelled_b@ == path_b@,
        call_ensures(paths::paths_overlap, (spelled_a, spelled_b), siblings),
        call_ensures(paths::paths_overlap, (spelled_b, spelled_a), turned),
        call_ensures(paths::paths_overlap, (directory, spelled_a), inside),
        call_ensures(paths::paths_overlap, (directory, directory), itself),
    ensures
        siblings <==> a@ == b@,
        turned == siblings,
        inside && itself,
{
    lemma_components_entry(directory@, a@);
    lemma_components_entry(directory@, b@);
    let base = paths::components(directory@);
    let left = paths::components(path_a@);
    let right = paths::components(path_b@);
    assert(left == base.push(a@) && right == base.push(b@));
    assert(left.subrange(0, base.len() as int) =~= base);
    assert(base.is_prefix_of(left));
    assert(base.subrange(0, base.len() as int) =~= base);
    assert(base.is_prefix_of(base));
    if left.is_prefix_of(right) {
        assert(left[base.len() as int] == right.subrange(0, left.len() as int)[base.len() as int]);
    }
    if right.is_prefix_of(left) {
        assert(right[base.len() as int] == left.subrange(0, right.len() as int)[base.len() as int]);
    }
    if a@ == b@ {
        assert(left.subrange(0, left.len() as int) =~= left);
    }
}

/// The components of a path and of its entry differ in the entry's name alone, and
/// a separator is put between them only where there is none.
pub proof fn law_entries_are_the_last_component(
    directory: &str,
    name: &str,
    path: String,
    spelled: &str,
    own: Vec<String>,
    parts: Vec<String>,
)
    requires
        is_name(name@),
        call_ensures(paths::path_of_entry, (directory, name), path),
        spelled@ == path@,
        call_ensures(paths::path_components, (directory,), own),
        call_ensures(paths::path_components, (spelled,), parts),
    ensures
        text::texts(parts@) =~= text::texts(own@).push(name@),
        directory@.len() == 0 ==> own@.len() == 0,
        directory@ == "/"@ ==> own@.len() == 1 && own@[0]@ == "/"@,
        directory@.len() == 0 ==> path@ =~= name@,
        directory@.len() > 0 && directory@.last() == '/' ==> path@ == directory@ + name@,
        directory@.len() > 0 && directory@.last() != '/' ==> path@ == directory@.push('/') + name@,
{
    lemma_components_entry(directory@, name@);
    assert(text::texts(own@).len() == own@.len());
    let nothing = Seq::<char>::empty();
    let single = seq![nothing];
    assert(single.drop_last() =~= Seq::<Seq<char>>::empty());
    assert(paths::component_segments(single.drop_last()).len() == 0);
    if directory@.len() == 0 {
        assert(paths::segments(directory@) == single);
        assert(paths::component_segments(single).len() == 0);
    }
    if directory@ == "/"@ {
        reveal_strlit("/");
        assert(directory@.drop_last() =~= nothing);
        assert(paths::segments(nothing) == single);
        let parts_of_root = paths::segments(directory@);
        assert(parts_of_root == single.push(nothing));
        assert(parts_of_root.drop_last() =~= single);
        assert(paths::component_segments(single).len() == 0);
        assert(paths::component_segments(parts_of_root).len() == 0);
        assert(text::texts(own@)[0] == own@[0]@);
    }
}

/// A separator at the end of a path does not count, and neither does a dot behind
/// one.
pub proof fn law_trailing_separators_and_dots_do_not_count(
    path: &str,
    slashed: &str,
    dotted: &str,
    parts: Vec<String>,
    slashed_parts: Vec<String>,
    dotted_parts: Vec<String>,
)
    requires
        path@.len() > 0,
        slashed@ == path@.push('/'),
        dotted@ == slashed@.push('.'),
        call_ensures(paths::path_components, (path,), parts),
        call_ensures(paths::path_components, (slashed,), slashed_parts),
        call_ensures(paths::path_components, (dotted,), dotted_parts),
    ensures
        text::texts(slashed_parts@) == text::texts(parts@),
        text::texts(dotted_parts@) == text::texts(parts@),
{
    reveal_strlit(".");
    let own = paths::segments(path@);
    let nothing = Seq::<char>::empty();
    assert(slashed@.drop_last() =~= path@);
    let after = paths::segments(slashed@);
    assert(after == own.push(nothing));
    assert(after.drop_last() =~= own);
    assert(paths::component_segments(after) == paths::component_segments(own));
    assert(dotted@.drop_last() =~= slashed@);
    let last = paths::segments(dotted@);
    assert(last == after.drop_last().push(nothing.push('.')));
    assert(last.drop_last() =~= own);
    assert(nothing.push('.') =~= "."@);
    lemma_segments_len(path@);
    assert(!paths::is_component(last.last(), last.len() - 1));
    assert(paths::component_segments(last) == paths::component_segments(own));
    assert(slashed@[0] == path@[0] && dotted@[0] == path@[0]);
}

proof fn lemma_segments_len(path: Seq<char>)
    ensures
        paths::segments(path).len() > 0,
    decreases path.len(),
{
    if path.len() > 0 {
        lemma_segments_len(path.drop_last());
    }
}

} // verus!
