//! GitHub repository addresses.

use vstd::prelude::*;

use crate::text;

verus! {

/// The owner and the repository of `https://github.com/<owner>/<repo>`.
pub open spec fn repository(url: Seq<char>) -> Option<(Seq<char>, Seq<char>)> {
    match text::after_prefix(url, "https://github.com/"@) {
        Some(rest) => {
            let pieces = text::split(rest, '/');
            if pieces.len() == 2 && pieces[0].len() > 0 && pieces[1].len() > 0 {
                Some((pieces[0], pieces[1]))
            } else {
                None
            }
        },
        None => None,
    }
}

/// Splits `https://github.com/<owner>/<repo>` into owner and repository.
pub fn parse_github_url(url: &str) -> (r: Option<(String, String)>)
    ensures
        match r {
            Some(pair) => repository(url@) == Some((pair.0@, pair.1@)),
            None => repository(url@) is None,
        },
{
    match text::strip_prefix(url, "https://github.com/") {
        Some(rest) => {
            let pieces = text::split_at_char(rest.as_str(), '/');
            assert(text::texts(pieces@).len() == pieces@.len());
            if pieces.len() == 2 {
                assert(text::texts(pieces@)[0] == pieces@[0]@);
                assert(text::texts(pieces@)[1] == pieces@[1]@);
                if !pieces[0].as_str().is_empty() && !pieces[1].as_str().is_empty() {
                    return Some((pieces[0].clone(), pieces[1].clone()));
                }
            }
            None
        },
        None => None,
    }
}

/// The address of a repository names its owner and the repository itself, in
/// this order.
pub proof fn law_repository_address(owner: Seq<char>, repo: Seq<char>)
    requires
        owner.len() > 0,
        repo.len() > 0,
        forall|i: int| 0 <= i < owner.len() ==> #[trigger] owner[i] != '/',
        forall|i: int| 0 <= i < repo.len() ==> #[trigger] repo[i] != '/',
    ensures
        repository("https://github.com/"@ + owner + "/"@ + repo) == Some((owner, repo)),
{
    reveal_strlit("/");
    let url = "https://github.com/"@ + owner + "/"@ + repo;
    let rest = owner + "/"@ + repo;
    let parts = seq![owner, repo];
    assert(url =~= "https://github.com/"@ + rest);
    text::law_parts(url, url, rest, "https://github.com/"@);
    assert("/"@ =~= seq!['/']);
    text::law_joining(owner, seq![repo], seq!['/']);
    text::law_joining(repo, Seq::empty(), seq!['/']);
    assert(parts =~= seq![owner] + seq![repo]);
    assert(text::joined(parts, seq!['/']) == rest);
    assert forall|i: int, j: int| 0 <= i < parts.len() && 0 <= j < parts[i].len() implies #[trigger]
        parts[i][j] != '/' by {
        if i == 0 {
            assert(owner[j] != '/');
        } else {
            assert(repo[j] != '/');
        }
    }
    text::law_joining_is_undone_by_split(parts, '/');
}

/// Only an address of that form names a repository.
pub proof fn law_only_repository_addresses_are_read(url: Seq<char>)
    ensures
        repository(url) matches Some((owner, repo)) ==> {
            &&& url == "https://github.com/"@ + owner + "/"@ + repo
            &&& owner.len() > 0 && !owner.contains('/')
            &&& repo.len() > 0 && !repo.contains('/')
        },
{
    if let Some((owner, repo)) = repository(url) {
        reveal_strlit("/");
        let head = "https://github.com/"@;
        let rest = url.subrange(head.len() as int, url.len() as int);
        let pieces = text::split(rest, '/');
        text::law_parts(url, url, rest, head);
        text::law_split_is_undone_by_joining(rest, '/');
        assert(pieces =~= seq![owner] + seq![repo]);
        text::law_joining(owner, seq![repo], seq!['/']);
        text::law_joining(repo, Seq::empty(), seq!['/']);
        assert("/"@ =~= seq!['/']);
        assert(rest == owner + seq!['/'] + repo);
        assert(url =~= head + owner + "/"@ + repo);
        assert forall|j: int| 0 <= j < owner.len() implies owner[j] != '/' by {
            assert(pieces[0][j] != '/');
        }
        assert forall|j: int| 0 <= j < repo.len() implies repo[j] != '/' by {
            assert(pieces[1][j] != '/');
        }
    }
}

} // verus!
