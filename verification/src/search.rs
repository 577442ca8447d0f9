//! The search over the songs of a playlist.
//!
//! A query that does not start with `$` is looked for in title, album and
//! artist. A query `$field:value` is looked for in one field, `title`,
//! `artist` or `album`, or in all three with `any`; a `!` before the field
//! turns the search round. Upper and lower case count as the same.

use crate::outside::{spec_lowercase, to_lowercase};
use crate::song_data::{SongData, SongDataView};
use crate::song_pool::{SongPool, SongPoolView};
use crate::song_ref::SongRef;
use crate::text::{
    chars_of, chars_spell, contains_chars, lemma_split_last_piece, lemma_split_one_piece,
    spec_contains, spec_split, spec_views, split_chars, string_of,
};
use vstd::prelude::*;

verus! {

/// Where a query is looked for.
#[derive(Copy, Clone, Debug, PartialEq, Eq, Structural)]
pub enum ParsedSearchType {
    Title,
    Artist,
    Album,
    Any,
}

/// A query, taken apart.
#[derive(Debug)]
pub struct ParsedSearch {
    pub value_lower: String,
    pub search_type: ParsedSearchType,
    pub not: bool,
}

/// A query, taken apart, as plain values.
pub struct ParsedSearchView {
    pub value_lower: Seq<char>,
    pub search_type: ParsedSearchType,
    pub not: bool,
}

impl View for ParsedSearch {
    type V = ParsedSearchView;

    open spec fn view(&self) -> ParsedSearchView {
        ParsedSearchView {
            value_lower: self.value_lower@,
            search_type: self.search_type,
            not: self.not,
        }
    }
}

/// The parts of a query `$field:value`, in lower case.
#[derive(Debug)]
pub struct Terms {
    pub search_type: String,
    pub search_value: String,
    pub not: bool,
}

/// The parts of a query, as plain values.
pub struct TermsView {
    pub search_type: Seq<char>,
    pub search_value: Seq<char>,
    pub not: bool,
}

impl View for Terms {
    type V = TermsView;

    open spec fn view(&self) -> TermsView {
        TermsView {
            search_type: self.search_type@,
            search_value: self.search_value@,
            not: self.not,
        }
    }
}

/// The parts of a query that starts with `$`.
///
/// What follows the `$` is split at each `:`. The first piece, in lower
/// case, names the field, without its `!` where it starts with one; the
/// second piece, in lower case, is the value. Further pieces do not count.
/// A query without `:` has no parts, and neither has the empty query.
pub open spec fn spec_terms(query: Seq<char>) -> Option<TermsView> {
    let pieces = spec_split(query.skip(1), ':');
    if query.len() == 0 || pieces.len() < 2 {
        None
    } else {
        let field = spec_lowercase(pieces[0]);
        let value = spec_lowercase(pieces[1]);
        if field.len() > 0 && field[0] == '!' {
            Some(TermsView { search_type: field.skip(1), search_value: value, not: true })
        } else {
            Some(TermsView { search_type: field, search_value: value, not: false })
        }
    }
}

/// The field that `name` names.
pub open spec fn spec_search_type(name: Seq<char>) -> Option<ParsedSearchType> {
    if name == "title"@ {
        Some(ParsedSearchType::Title)
    } else if name == "artist"@ {
        Some(ParsedSearchType::Artist)
    } else if name == "album"@ {
        Some(ParsedSearchType::Album)
    } else if name == "any"@ {
        Some(ParsedSearchType::Any)
    } else {
        None
    }
}

/// A query taken apart; `None` where it starts with `$` and has no `:` or
/// names no field.
pub open spec fn spec_parse_search(query: Seq<char>) -> Option<ParsedSearchView> {
    if query.len() == 0 || query[0] != '$' {
        Some(
            ParsedSearchView {
                value_lower: spec_lowercase(query),
                search_type: ParsedSearchType::Any,
                not: false,
            },
        )
    } else {
        match spec_terms(query) {
            None => None,
            Some(terms) => match spec_search_type(terms.search_type) {
                None => None,
                Some(search_type) => Some(
                    ParsedSearchView {
                        value_lower: terms.search_value,
                        search_type,
                        not: terms.not,
                    },
                ),
            },
        }
    }
}

/// The value stands in `field`, upper and lower case counting as the same.
pub open spec fn spec_field_hit(field: Seq<char>, value_lower: Seq<char>) -> bool {
    spec_contains(spec_lowercase(field), value_lower)
}

/// The value of `search` stands in one of the fields of `data` in which it
/// is looked for.
pub open spec fn spec_hit(search: ParsedSearchView, data: SongDataView) -> bool {
    match search.search_type {
        ParsedSearchType::Title => spec_field_hit(data.title, search.value_lower),
        ParsedSearchType::Album => spec_field_hit(data.album, search.value_lower),
        ParsedSearchType::Artist => spec_field_hit(data.artist, search.value_lower),
        ParsedSearchType::Any => spec_field_hit(data.title, search.value_lower) || spec_field_hit(
            data.album,
            search.value_lower,
        ) || spec_field_hit(data.artist, search.value_lower),
    }
}

/// `search` finds a song with the data `data`: the value stands in one of
/// its fields, or in none of them where the search is turned round.
pub open spec fn spec_matches(search: ParsedSearchView, data: SongDataView) -> bool {
    spec_hit(search, data) != search.not
}

/// `search` finds the song behind `song`. It finds no song whose handle is
/// on no live object.
pub open spec fn spec_finds(search: ParsedSearchView, pool: SongPoolView, song: SongRef) -> bool {
    match pool.song_data(song) {
        Some(data) => spec_matches(search, data),
        None => false,
    }
}

/// The songs of `songs` that `search` finds, in their order.
pub open spec fn spec_found(
    search: ParsedSearchView,
    pool: SongPoolView,
    songs: Seq<SongRef>,
) -> Seq<SongRef> {
    songs.filter(|song: SongRef| spec_finds(search, pool, song))
}

/// Whether `value_lower` stands in `field`, upper and lower case counting
/// as the same.
fn field_hit(field: &str, value_lower: &Vec<char>) -> (hit: bool)
    ensures
        hit == spec_field_hit(field@, value_lower@),
{
    let lower = to_lowercase(field);
    let lower_chars = chars_of(lower.as_str());
    contains_chars(&lower_chars, value_lower)
}

impl ParsedSearch {
    /// Takes a query apart.
    pub fn parse_search_str(search_str: &str) -> (parsed: Option<ParsedSearch>)
        ensures
            match parsed {
                Some(parsed) => spec_parse_search(search_str@) == Some(parsed@),
                None => spec_parse_search(search_str@) is None,
            },
    {
        let chars = chars_of(search_str);
        if chars.len() == 0 || chars[0] != '$' {
            return Some(
                ParsedSearch {
                    value_lower: to_lowercase(search_str),
                    search_type: ParsedSearchType::Any,
                    not: false,
                },
            );
        }
        match ParsedSearch::try_get_terms(search_str) {
            None => None,
            Some(terms) => {
                let name = chars_of(terms.search_type.as_str());
                let search_type = if chars_spell(&name, "title") {
                    ParsedSearchType::Title
                } else if chars_spell(&name, "artist") {
                    ParsedSearchType::Artist
                } else if chars_spell(&name, "album") {
                    ParsedSearchType::Album
                } else if chars_spell(&name, "any") {
                    ParsedSearchType::Any
                } else {
                    return None;
                };
                Some(
                    ParsedSearch { value_lower: terms.search_value, search_type, not: terms.not },
                )
            },
        }
    }

    /// The parts of a query that starts with `$`.
    pub fn try_get_terms(search_str: &str) -> (terms: Option<Terms>)
        ensures
            match terms {
                Some(terms) => spec_terms(search_str@) == Some(terms@),
                None => spec_terms(search_str@) is None,
            },
    {
        let chars = chars_of(search_str);
        if chars.len() == 0 {
            return None;
        }
        let mut rest: Vec<char> = Vec::new();
        let mut i: usize = 1;
        while i < chars.len()
            invariant
                1 <= i <= chars@.len(),
                rest@ == chars@.subrange(1, i as int),
            decreases chars@.len() - i,
        {
            rest.push(chars[i]);
            i += 1;
            assert(chars@.subrange(1, i as int) =~= chars@.subrange(1, i - 1).push(chars@[i - 1]));
        }
        assert(rest@ =~= chars@.skip(1));
        let pieces = split_chars(&rest, ':');
        if pieces.len() < 2 {
            return None;
        }
        assert(spec_views(pieces@)[0] == pieces@[0]@);
        assert(spec_views(pieces@)[1] == pieces@[1]@);
        let field = to_lowercase(string_of(&pieces[0]).as_str());
        let search_value = to_lowercase(string_of(&pieces[1]).as_str());
        let field_chars = chars_of(field.as_str());
        if field_chars.len() > 0 && field_chars[0] == '!' {
            let mut name: Vec<char> = Vec::new();
            let mut k: usize = 1;
            while k < field_chars.len()
                invariant
                    1 <= k <= field_chars@.len(),
                    name@ == field_chars@.subrange(1, k as int),
                decreases field_chars@.len() - k,
            {
                name.push(field_chars[k]);
                k += 1;
                assert(field_chars@.subrange(1, k as int) =~= field_chars@.subrange(1, k - 1).push(
                    field_chars@[k - 1],
                ));
            }
            assert(name@ =~= field_chars@.skip(1));
            Some(Terms { search_type: string_of(&name), search_value, not: true })
        } else {
            Some(Terms { search_type: field, search_value, not: false })
        }
    }

    /// Whether the search finds a song with the data `data`.
    pub fn matches(&self, data: &SongData) -> (found: bool)
        ensures
            found == spec_matches(self@, data@),
    {
        let value = chars_of(self.value_lower.as_str());
        let hit = match self.search_type {
            ParsedSearchType::Title => field_hit(data.title.as_str(), &value),
            ParsedSearchType::Album => field_hit(data.album.as_str(), &value),
            ParsedSearchType::Artist => field_hit(data.artist.artist_string.as_str(), &value),
            ParsedSearchType::Any => field_hit(data.title.as_str(), &value) || field_hit(
                data.album.as_str(),
                &value,
            ) || field_hit(data.artist.artist_string.as_str(), &value),
        };
        hit != self.not
    }

    /// The songs of `songs` that the search finds, in their order.
    pub fn filter_songs(&self, pool: &SongPool, songs: &Vec<SongRef>) -> (found: Vec<SongRef>)
        requires
            pool@.wf(),
        ensures
            found@ == spec_found(self@, pool@, songs@),
    {
        let mut found: Vec<SongRef> = Vec::new();
        let mut i: usize = 0;
        proof {
            lemma_found_empty(self@, pool@);
            assert(songs@.take(0) =~= Seq::<SongRef>::empty());
        }
        while i < songs.len()
            invariant
                i <= songs@.len(),
                pool@.wf(),
                found@ == spec_found(self@, pool@, songs@.take(i as int)),
            decreases songs@.len() - i,
        {
            let song = songs[i];
            proof {
                lemma_found_push(self@, pool@, songs@.take(i as int), song);
                assert(songs@.take(i + 1) =~= songs@.take(i as int).push(song));
            }
            let finds = match pool.song_data(&song) {
                Some(data) => self.matches(data),
                None => false,
            };
            if finds {
                found.push(song);
            }
            i += 1;
        }
        assert(songs@.take(songs@.len() as int) =~= songs@);
        found
    }
}

/// Nothing is found among no songs.
pub proof fn lemma_found_empty(search: ParsedSearchView, pool: SongPoolView)
    ensures
        spec_found(search, pool, Seq::<SongRef>::empty()) == Seq::<SongRef>::empty(),
{
    reveal(Seq::filter);
}

/// What is found among songs and one more is what is found among the songs,
/// and the one more where the search finds it.
pub proof fn lemma_found_push(
    search: ParsedSearchView,
    pool: SongPoolView,
    songs: Seq<SongRef>,
    song: SongRef,
)
    ensures
        spec_found(search, pool, songs.push(song)) == if spec_finds(search, pool, song) {
            spec_found(search, pool, songs).push(song)
        } else {
            spec_found(search, pool, songs)
        },
{
    reveal(Seq::filter);
    assert(songs.push(song).drop_last() =~= songs);
}

/// What is found among songs are the songs among them that the search
/// finds.
pub proof fn lemma_found_songs(search: ParsedSearchView, pool: SongPoolView, songs: Seq<SongRef>)
    ensures
        forall|song: SongRef|
            #[trigger] spec_found(search, pool, songs).contains(song) <==> songs.contains(song)
                && spec_finds(search, pool, song),
        spec_found(search, pool, songs).len() <= songs.len(),
    decreases songs.len(),
{
    if songs.len() == 0 {
        lemma_found_empty(search, pool);
    } else {
        let front = songs.drop_last();
        let last = songs.last();
        lemma_found_songs(search, pool, front);
        lemma_found_push(search, pool, front, last);
        assert(front.push(last) =~= songs);
        let found_front = spec_found(search, pool, front);
        let found = spec_found(search, pool, songs);
        assert forall|song: SongRef| #[trigger] found.contains(song) <==> songs.contains(song)
            && spec_finds(search, pool, song) by {
            if found.contains(song) {
                let i = choose|i: int| 0 <= i < found.len() && found[i] == song;
                if i < found_front.len() {
                    assert(found_front[i] == song);
                    assert(found_front.contains(song));
                    let j = choose|j: int| 0 <= j < front.len() && front[j] == song;
                    assert(songs[j] == song);
                } else {
                    assert(song == last);
                    assert(songs[songs.len() - 1] == song);
                }
            }
            if songs.contains(song) && spec_finds(search, pool, song) {
                let j = choose|j: int| 0 <= j < songs.len() && songs[j] == song;
                if j < front.len() {
                    assert(front[j] == song);
                    assert(front.contains(song));
                    assert(found_front.contains(song));
                    let i = choose|i: int| 0 <= i < found_front.len() && found_front[i] == song;
                    assert(found[i] == song);
                } else {
                    assert(found[found.len() - 1] == song);
                }
            }
        }
    }
}

/// A query that does not start with `$` is looked for, in lower case, in
/// title, album and artist.
pub proof fn lemma_bare_query(query: Seq<char>)
    requires
        query.len() == 0 || query[0] != '$',
    ensures
        spec_parse_search(query) == Some(
            ParsedSearchView {
                value_lower: spec_lowercase(query),
                search_type: ParsedSearchType::Any,
                not: false,
            },
        ),
{
}

/// The parts of a query `$field:value` are the field and the value, each in
/// lower case; a `!` before the field in lower case is taken off and turns
/// the search round.
pub proof fn lemma_field_query(field: Seq<char>, value: Seq<char>)
    requires
        forall|i: int| 0 <= i < field.len() ==> field[i] != ':',
        forall|i: int| 0 <= i < value.len() ==> value[i] != ':',
    ensures
        ({
            let query = seq!['$'] + field + seq![':'] + value;
            let lowered = spec_lowercase(field);
            let turned = lowered.len() > 0 && lowered[0] == '!';
            let name = if turned {
                lowered.skip(1)
            } else {
                lowered
            };
            &&& spec_terms(query) == Some(
                TermsView { search_type: name, search_value: spec_lowercase(value), not: turned },
            )
            &&& spec_parse_search(query) == (match spec_search_type(name) {
                Some(search_type) => Some(
                    ParsedSearchView {
                        value_lower: spec_lowercase(value),
                        search_type,
                        not: turned,
                    },
                ),
                None => None,
            })
        }),
{
    let query = seq!['$'] + field + seq![':'] + value;
    assert(query.skip(1) =~= field + seq![':'] + value);
    lemma_split_one_piece(field, ':');
    lemma_split_last_piece(field, value, ':');
    let pieces = spec_split(query.skip(1), ':');
    assert(pieces == seq![field].push(value));
    assert(pieces.len() == 2 && pieces[0] == field && pieces[1] == value);
    assert(query[0] == '$');
}

/// A search in one field finds a song exactly when the value stands in
/// that field of the song in lower case, whatever stands in its other
/// fields; turned round, it finds the song exactly when the value does not
/// stand there.
pub proof fn lemma_field_search(value_lower: Seq<char>, not: bool, data: SongDataView)
    ensures
        spec_matches(
            ParsedSearchView { value_lower, search_type: ParsedSearchType::Title, not },
            data,
        ) == (spec_contains(spec_lowercase(data.title), value_lower) != not),
        spec_matches(
            ParsedSearchView { value_lower, search_type: ParsedSearchType::Artist, not },
            data,
        ) == (spec_contains(spec_lowercase(data.artist), value_lower) != not),
        spec_matches(
            ParsedSearchView { value_lower, search_type: ParsedSearchType::Album, not },
            data,
        ) == (spec_contains(spec_lowercase(data.album), value_lower) != not),
        spec_matches(
            ParsedSearchView { value_lower, search_type: ParsedSearchType::Any, not },
            data,
        ) == ((spec_contains(spec_lowercase(data.title), value_lower) || spec_contains(
            spec_lowercase(data.album),
            value_lower,
        ) || spec_contains(spec_lowercase(data.artist), value_lower)) != not),
{
}

/// What is found among songs of which none comes twice holds none twice.
pub proof fn lemma_found_distinct(search: ParsedSearchView, pool: SongPoolView, songs: Seq<SongRef>)
    requires
        crate::song_list::spec_distinct(songs),
    ensures
        crate::song_list::spec_distinct(spec_found(search, pool, songs)),
    decreases songs.len(),
{
    if songs.len() == 0 {
        lemma_found_empty(search, pool);
    } else {
        let front = songs.drop_last();
        let last = songs.last();
        assert forall|i: int, j: int|
            0 <= i < front.len() && 0 <= j < front.len() && i != j implies !(
        #[trigger] front[i]).id.same_id((#[trigger] front[j]).id) by {
            assert(front[i] == songs[i] && front[j] == songs[j]);
        }
        lemma_found_distinct(search, pool, front);
        lemma_found_songs(search, pool, front);
        lemma_found_push(search, pool, front, last);
        assert(front.push(last) =~= songs);
        let found_front = spec_found(search, pool, front);
        let found = spec_found(search, pool, songs);
        assert forall|i: int, j: int|
            0 <= i < found.len() && 0 <= j < found.len() && i != j implies !(
        #[trigger] found[i]).id.same_id((#[trigger] found[j]).id) by {
            if i < found_front.len() && j < found_front.len() {
                assert(found[i] == found_front[i] && found[j] == found_front[j]);
            } else {
                let k = if i < found_front.len() {
                    i
                } else {
                    j
                };
                assert(found[k] == found_front[k]);
                assert(found_front.contains(found_front[k]));
                assert(front.contains(found_front[k]));
                let m = choose|m: int| 0 <= m < front.len() && front[m] == found_front[k];
                assert(songs[m] == found_front[k]);
                assert(songs[songs.len() - 1] == last);
            }
        }
    }
}

/// A search turned round finds exactly the songs with data that the search
/// itself does not find.
pub proof fn lemma_not_turns_round(search: ParsedSearchView, data: SongDataView)
    ensures
        spec_matches(ParsedSearchView { not: !search.not, ..search }, data) == !spec_matches(
            search,
            data,
        ),
{
}

} // verus!
