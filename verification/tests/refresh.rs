use repo_finder::domain::Org;
use repo_finder::fetch::{absorb_org_page, finish_orgs, RepoFetch};
use repo_finder::github_api::{
    org_from_remote, org_from_user, repo_from_remote, MissingOwnerError, RemoteOrg, RemoteOwner,
    RemoteRepo, RemoteUser, RepoListing,
};

fn remote(id: i64, owner: &str, name: &str) -> RemoteRepo {
    RemoteRepo {
        id,
        name: name.to_string(),
        full_name: Some(format!("{}/{}", owner, name)),
        owner: Some(RemoteOwner { id: 900 + id, login: owner.to_string() }),
        private: None,
        description: None,
        language: None,
        default_branch: Some("main".to_string()),
        archived: None,
    }
}

fn archived(id: i64) -> RemoteRepo {
    let mut repo = remote(id, "old", "gone");
    repo.archived = Some(true);
    repo
}

fn orphan(id: i64) -> RemoteRepo {
    let mut repo = remote(id, "nobody", "lost");
    repo.owner = None;
    repo
}

fn org(id: i64, login: &str) -> Org {
    Org::new(id, login.to_string(), None, None)
}

fn page_of(count: usize, first_id: i64) -> Vec<RemoteRepo> {
    (0..count)
        .map(|i| remote(first_id + i as i64, "o", &format!("r{}", i)))
        .collect()
}

fn ids(listing: RepoListing) -> Vec<i64> {
    listing.into_repos().iter().map(|repo| repo.id).collect()
}

#[test]
fn a_record_is_made_of_what_the_listing_says() {
    let mut given = remote(7, "rust-lang", "rust");
    given.private = Some(true);
    given.description = Some("The language".to_string());
    given.language = Some("Rust".to_string());
    let repo = repo_from_remote(given).unwrap();
    assert_eq!(repo.id, 7);
    assert_eq!(repo.name, "rust");
    assert_eq!(repo.full_name, "rust-lang/rust");
    assert_eq!(repo.owner_id, 907);
    assert_eq!(repo.owner_login, "rust-lang");
    assert!(repo.private);
    assert_eq!(repo.description, Some("The language".to_string()));
    assert_eq!(repo.language, Some("Rust".to_string()));
    assert_eq!(repo.default_branch, Some("main".to_string()));
    assert_eq!(repo.access_count, 0);
    assert_eq!(repo.last_accessed_at, None);
}

#[test]
fn a_missing_full_name_is_made_of_owner_and_name() {
    let mut given = remote(7, "rust-lang", "cargo");
    given.full_name = None;
    given.private = Some(false);
    let repo = repo_from_remote(given).unwrap();
    assert_eq!(repo.full_name, "rust-lang/cargo");
    assert!(!repo.private);
}

#[test]
fn a_repository_without_owner_is_an_error() {
    assert_eq!(repo_from_remote(orphan(1)).unwrap_err(), MissingOwnerError);
    assert_eq!(MissingOwnerError.to_string(), "Repo missing owner");
}

#[test]
fn a_listing_keeps_each_repository_once() {
    let mut listing = RepoListing::new();
    let page = vec![
        remote(1, "a", "x"),
        archived(2),
        remote(3, "a", "y"),
        remote(1, "b", "again"),
        remote(2, "c", "revived"),
    ];
    assert_eq!(listing.absorb(page), Ok(()));
    assert_eq!(listing.absorb(vec![remote(3, "a", "y"), remote(4, "a", "z")]), Ok(()));
    assert_eq!(listing.absorb(vec![]), Ok(()));
    let repos = listing.into_repos();
    let got: Vec<(i64, &str)> = repos.iter().map(|repo| (repo.id, repo.full_name.as_str())).collect();
    assert_eq!(got, vec![(1, "a/x"), (3, "a/y"), (2, "c/revived"), (4, "a/z")]);
}

#[test]
fn a_listing_stops_at_a_kept_entry_without_owner() {
    let mut listing = RepoListing::new();
    assert_eq!(
        listing.absorb(vec![remote(1, "a", "x"), orphan(2), remote(3, "a", "y")]),
        Err(MissingOwnerError)
    );
    assert_eq!(ids(listing), vec![1]);
    let mut listing = RepoListing::new();
    let mut hidden = orphan(5);
    hidden.archived = Some(true);
    assert_eq!(
        listing.absorb(vec![remote(1, "a", "x"), hidden, orphan(1), remote(3, "a", "y")]),
        Ok(())
    );
    assert_eq!(ids(listing), vec![1, 3]);
}

#[test]
fn organisations_are_listed_with_the_user_last() {
    let mut orgs = vec![org(1, "first")];
    let page = vec![
        RemoteOrg {
            id: 2,
            login: "second".to_string(),
            name: Some("Second".to_string()),
            avatar_url: "https://pics/2".to_string(),
        },
        RemoteOrg { id: 3, login: "third".to_string(), name: None, avatar_url: "p3".to_string() },
    ];
    assert!(absorb_org_page(&mut orgs, page));
    assert_eq!(orgs.len(), 3);
    assert_eq!(orgs[1].login, "second");
    assert_eq!(orgs[1].name, Some("Second".to_string()));
    assert_eq!(orgs[1].avatar_url, Some("https://pics/2".to_string()));
    assert_eq!(orgs[2].id, 3);
    let full: Vec<RemoteOrg> = (0..100)
        .map(|i| RemoteOrg { id: i, login: format!("o{}", i), name: None, avatar_url: String::new() })
        .collect();
    assert!(!absorb_org_page(&mut orgs, full));
    assert_eq!(orgs.len(), 103);
    let user = RemoteUser {
        id: 50,
        login: "me".to_string(),
        name: None,
        avatar_url: "my-pic".to_string(),
    };
    let all = finish_orgs(vec![org(1, "first")], user);
    assert_eq!(all.len(), 2);
    assert_eq!(all[0].login, "first");
    assert_eq!(all[1].id, 50);
    assert_eq!(all[1].login, "me");
    assert_eq!(all[1].name, Some("me".to_string()));
    assert_eq!(all[1].avatar_url, Some("my-pic".to_string()));
    let named = org_from_user(RemoteUser {
        id: 51,
        login: "me".to_string(),
        name: Some("My Name".to_string()),
        avatar_url: String::new(),
    });
    assert_eq!(named.name, Some("My Name".to_string()));
    let listed = org_from_remote(RemoteOrg {
        id: 9,
        login: "nine".to_string(),
        name: None,
        avatar_url: "p".to_string(),
    });
    assert_eq!(listed.id, 9);
    assert_eq!(listed.access_count, 0);
}

#[test]
fn a_refresh_reads_the_user_then_each_organisation() {
    let orgs = vec![org(1, "alpha"), org(2, "me"), org(3, "beta")];
    let mut fetch = RepoFetch::start(&orgs, "me");
    assert_eq!(
        fetch.next_request(),
        Some("/user/repos?page=1&per_page=100&sort=updated&type=all".to_string())
    );
    assert_eq!(fetch.on_page(page_of(100, 0)), Ok(()));
    assert_eq!(
        fetch.next_request(),
        Some("/user/repos?page=2&per_page=100&sort=updated&type=all".to_string())
    );
    assert_eq!(fetch.on_page(page_of(5, 100)), Ok(()));
    assert_eq!(
        fetch.next_request(),
        Some("/orgs/alpha/repos?page=1&per_page=100&sort=updated&type=all".to_string())
    );
    assert_eq!(fetch.on_page(page_of(3, 103)), Ok(()));
    assert_eq!(
        fetch.next_request(),
        Some("/orgs/beta/repos?page=1&per_page=100&sort=updated&type=all".to_string())
    );
    assert_eq!(fetch.on_page(vec![]), Ok(()));
    assert_eq!(fetch.next_request(), None);
    assert_eq!(fetch.on_page(page_of(4, 500)), Ok(()));
    assert_eq!(fetch.next_request(), None);
    assert_eq!(fetch.finish().len(), 106);
}

#[test]
fn a_refresh_fails_on_a_repository_without_owner() {
    let mut fetch = RepoFetch::start(&vec![], "me");
    assert_eq!(fetch.on_page(vec![remote(1, "a", "x"), orphan(2)]), Err(MissingOwnerError));
    assert_eq!(
        fetch.next_request(),
        Some("/user/repos?page=1&per_page=100&sort=updated&type=all".to_string())
    );
    let mut alone = RepoFetch::start(&vec![org(2, "me")], "me");
    assert_eq!(alone.on_page(vec![]), Ok(()));
    assert_eq!(alone.next_request(), None);
    assert!(alone.finish().is_empty());
}

#[test]
fn organisations_can_be_named_after_the_users_listing() {
    let mut fetch = RepoFetch::start(&Vec::new(), "");
    assert_eq!(fetch.on_page(page_of(100, 0)), Ok(()));
    let early = fetch.then_orgs(&vec![org(1, "alpha"), org(2, "me")], "me");
    assert_eq!(
        early.next_request(),
        Some("/user/repos?page=2&per_page=100&sort=updated&type=all".to_string())
    );
    let mut fetch = early;
    assert_eq!(fetch.on_page(page_of(2, 100)), Ok(()));
    assert_eq!(
        fetch.next_request(),
        Some("/orgs/alpha/repos?page=1&per_page=100&sort=updated&type=all".to_string())
    );

    let mut alone = RepoFetch::start(&Vec::new(), "");
    assert_eq!(alone.on_page(page_of(3, 0)), Ok(()));
    assert_eq!(alone.next_request(), None);
    let mut later = alone.then_orgs(&vec![org(2, "me"), org(3, "beta")], "me");
    assert_eq!(
        later.next_request(),
        Some("/orgs/beta/repos?page=1&per_page=100&sort=updated&type=all".to_string())
    );
    assert_eq!(later.on_page(vec![remote(1, "o", "again"), remote(9, "beta", "new")]), Ok(()));
    assert_eq!(later.next_request(), None);
    let ids: Vec<i64> = later.finish().iter().map(|repo| repo.id).collect();
    assert_eq!(ids, vec![0, 1, 2, 9]);

    let mut none = RepoFetch::start(&Vec::new(), "");
    assert_eq!(none.on_page(vec![]), Ok(()));
    let none = none.then_orgs(&vec![org(2, "me")], "me");
    assert_eq!(none.next_request(), None);
}
