use pict_rs::alias::{Alias, DeleteToken};
use pict_rs::details::{Details, MediaType};
use pict_rs::error::UploadError;
use pict_rs::repo::alias_repo::AliasRepo;
use pict_rs::repo::hash_repo::HashRepo;
use pict_rs::repo::legacy::{
    alias_id_key, alias_key, alias_key_bounds, delete_key, details_key, find_entry, motion_key,
    variant_key, Old, OldAlias, OldHash, OldTrees,
};
use pict_rs::repo::migrate::migrate_hash;
use pict_rs::repo::{AlreadyExists, IdentifierRepo, Repo, SettingsRepo};
use pict_rs::upload_manager::UploadManager;

fn hash(n: u8) -> Vec<u8> {
    vec![n; 32]
}

fn sorted(mut v: Vec<Vec<u8>>) -> Vec<Vec<u8>> {
    v.sort();
    v
}

fn details(width: usize) -> Details {
    Details::new(width, 2, MediaType::image_png(), None, 5)
}

#[test]
fn settings_set_get_remove() {
    let mut settings = SettingsRepo::new();
    assert_eq!(settings.get(&b"k".to_vec()), None);
    settings.set(b"k".to_vec(), b"v1".to_vec());
    settings.set(b"other".to_vec(), b"o".to_vec());
    settings.set(b"k".to_vec(), b"v2".to_vec());
    assert_eq!(settings.get(&b"k".to_vec()), Some(b"v2".to_vec()));
    assert_eq!(settings.get(&b"other".to_vec()), Some(b"o".to_vec()));
    settings.remove(&b"k".to_vec());
    assert_eq!(settings.get(&b"k".to_vec()), None);
    assert_eq!(settings.get(&b"other".to_vec()), Some(b"o".to_vec()));
    settings.remove(&b"k".to_vec());
}

#[test]
fn identifier_details() {
    let mut identifiers = IdentifierRepo::new();
    assert_eq!(identifiers.details(&b"id".to_vec()), None);
    identifiers.relate_details(b"id".to_vec(), &details(1));
    identifiers.relate_details(b"id".to_vec(), &details(9));
    assert_eq!(identifiers.details(&b"id".to_vec()), Some(details(9)));
    identifiers.cleanup(&b"id".to_vec());
    assert_eq!(identifiers.details(&b"id".to_vec()), None);
}

#[test]
fn hash_creation_is_guarded() {
    let mut hashes = HashRepo::new();
    assert!(!hashes.is_created(&hash(1)));
    assert_eq!(hashes.create(hash(1)), Ok(()));
    hashes.relate_identifier(hash(1), b"first".to_vec());
    hashes.relate_alias(hash(1), &Alias::from_existing("a.png"));
    assert_eq!(hashes.create(hash(1)), Err(AlreadyExists));
    assert!(hashes.is_created(&hash(1)));
    assert_eq!(hashes.identifier(&hash(1)), Some(b"first".to_vec()));
    assert_eq!(hashes.aliases(&hash(1)), vec![Alias::from_existing("a.png")]);
    assert_eq!(hashes.create(hash(2)), Ok(()));
    assert_eq!(sorted(hashes.hashes()), vec![hash(1), hash(2)]);
}

#[test]
fn hash_relations() {
    let mut hashes = HashRepo::new();
    let a = Alias::from_existing("a.png");
    let b = Alias::from_existing("b.png");
    hashes.relate_alias(hash(1), &a);
    hashes.relate_alias(hash(1), &b);
    hashes.relate_alias(hash(1), &a);
    hashes.relate_alias(hash(2), &a);
    let mut both = hashes.aliases(&hash(1));
    both.sort();
    assert_eq!(both, vec![a.clone(), b.clone()]);
    hashes.remove_alias(hash(1), &a);
    assert_eq!(hashes.aliases(&hash(1)), vec![b.clone()]);
    assert_eq!(hashes.aliases(&hash(2)), vec![a.clone()]);
    assert_eq!(hashes.aliases(&hash(3)), Vec::<Alias>::new());

    assert_eq!(hashes.variant_identifier(hash(1), String::from("thumb")), None);
    hashes.relate_variant_identifier(hash(1), String::from("thumb"), b"v1".to_vec());
    hashes.relate_variant_identifier(hash(1), String::from("blur"), b"v2".to_vec());
    hashes.relate_variant_identifier(hash(2), String::from("thumb"), b"v3".to_vec());
    hashes.relate_variant_identifier(hash(1), String::from("thumb"), b"v4".to_vec());
    assert_eq!(
        hashes.variant_identifier(hash(1), String::from("thumb")),
        Some(b"v4".to_vec())
    );
    let mut variants = hashes.variants(&hash(1));
    variants.sort();
    assert_eq!(
        variants,
        vec![
            (String::from("blur"), b"v2".to_vec()),
            (String::from("thumb"), b"v4".to_vec())
        ]
    );
    assert_eq!(hashes.motion_identifier(&hash(1)), None);
    hashes.relate_motion_identifier(hash(1), b"m".to_vec());
    assert_eq!(hashes.motion_identifier(&hash(1)), Some(b"m".to_vec()));

    hashes.cleanup(&hash(1));
    assert_eq!(hashes.aliases(&hash(1)), Vec::<Alias>::new());
    assert_eq!(hashes.variants(&hash(1)), Vec::new());
    assert_eq!(hashes.motion_identifier(&hash(1)), None);
    assert_eq!(hashes.aliases(&hash(2)), vec![a]);
    assert_eq!(
        hashes.variant_identifier(hash(2), String::from("thumb")),
        Some(b"v3".to_vec())
    );
}

#[test]
fn alias_creation_is_guarded() {
    let mut aliases = AliasRepo::new();
    let a = Alias::from_existing("a.png");
    let token = DeleteToken::from_existing("token");
    assert_eq!(aliases.create(&a), Ok(()));
    assert_eq!(aliases.relate_delete_token(&a, &token), Ok(()));
    aliases.relate_hash(&a, hash(1));
    assert_eq!(aliases.create(&a), Err(AlreadyExists));
    assert_eq!(
        aliases.relate_delete_token(&a, &DeleteToken::from_existing("other")),
        Err(AlreadyExists)
    );
    assert!(aliases.is_created(&a));
    assert_eq!(aliases.delete_token(&a), Some(token));
    assert_eq!(aliases.hash(&a), Some(hash(1)));
    aliases.cleanup(&a);
    assert!(!aliases.is_created(&a));
    assert_eq!(aliases.delete_token(&a), None);
    assert_eq!(aliases.hash(&a), None);
    assert_eq!(aliases.create(&a), Ok(()));
}

#[test]
fn identical_uploads_are_stored_once() {
    let mut manager = UploadManager::new(Repo::open());
    assert!(manager.save_upload(b"blob-1".to_vec(), hash(1)));
    let (first, _) = manager.add_alias(&hash(1), ".png", 3).unwrap();
    assert!(!manager.save_upload(b"blob-2".to_vec(), hash(1)));
    let (second, _) = manager.add_alias(&hash(1), ".png", 3).unwrap();
    assert_ne!(first, second);
    assert_eq!(manager.repo().aliases.hash(&first), Some(hash(1)));
    assert_eq!(manager.repo().aliases.hash(&second), Some(hash(1)));
    assert_eq!(manager.from_alias(&first), Ok(b"blob-1".to_vec()));
    assert_eq!(manager.from_alias(&second), Ok(b"blob-1".to_vec()));
    assert_eq!(manager.repo().hashes.hashes(), vec![hash(1)]);
    let mut names = manager.aliases_by_alias(&first).ok().unwrap();
    names.sort();
    let mut expected = vec![first.to_string(), second.to_string()];
    expected.sort();
    assert_eq!(names, expected);
}

#[test]
fn taken_aliases_are_refused() {
    let mut manager = UploadManager::new(Repo::open());
    manager.save_upload(b"blob".to_vec(), hash(1));
    let alias = Alias::from_existing("taken.png");
    let token = manager.add_existing_alias(&hash(1), &alias).ok().unwrap();
    assert_eq!(
        manager.add_existing_alias(&hash(2), &alias),
        Err(UploadError::DuplicateAlias)
    );
    assert_eq!(manager.repo().aliases.hash(&alias), Some(hash(1)));
    assert_eq!(manager.repo().aliases.delete_token(&alias), Some(token));
    assert_eq!(manager.add_alias(&hash(1), ".png", 0), None);
}

#[test]
fn deletion_counts_references() {
    let mut manager = UploadManager::new(Repo::open());
    manager.save_upload(b"original".to_vec(), hash(1));
    let a1 = Alias::from_existing("one.png");
    let a2 = Alias::from_existing("two.png");
    let t1 = manager.add_existing_alias(&hash(1), &a1).ok().unwrap();
    let t2 = manager.add_existing_alias(&hash(1), &a2).ok().unwrap();
    manager.store_variant(hash(1), String::from("thumb"), b"variant".to_vec());
    manager.store_variant_details(b"original".to_vec(), &details(1));
    manager.store_variant_details(b"variant".to_vec(), &details(2));
    manager.store_variant_details(b"unrelated".to_vec(), &details(3));

    assert_eq!(manager.delete(&a1, &t1), Ok(vec![]));
    assert_eq!(manager.from_alias(&a1), Err(UploadError::MissingAlias));
    assert_eq!(manager.repo().aliases.delete_token(&a1), None);
    assert_eq!(manager.from_alias(&a2), Ok(b"original".to_vec()));
    assert_eq!(manager.aliases_by_hash(&hash(1)), vec!["two.png"]);
    assert_eq!(manager.variant_details(&b"variant".to_vec()), Some(details(2)));

    let blobs = manager.delete(&a2, &t2).ok().unwrap();
    assert_eq!(sorted(blobs), vec![b"original".to_vec(), b"variant".to_vec()]);
    assert!(!manager.repo().hashes.is_created(&hash(1)));
    assert_eq!(manager.repo().hashes.identifier(&hash(1)), None);
    assert_eq!(manager.repo().hashes.variants(&hash(1)), vec![]);
    assert_eq!(manager.variant_details(&b"original".to_vec()), None);
    assert_eq!(manager.variant_details(&b"variant".to_vec()), None);
    assert_eq!(manager.variant_details(&b"unrelated".to_vec()), Some(details(3)));
    assert_eq!(manager.delete(&a2, &t2), Err(UploadError::MissingAlias));
}

#[test]
fn wrong_token_changes_nothing() {
    let mut manager = UploadManager::new(Repo::open());
    manager.save_upload(b"original".to_vec(), hash(1));
    let alias = Alias::from_existing("one.png");
    let token = manager.add_existing_alias(&hash(1), &alias).ok().unwrap();
    let wrong = DeleteToken::from_existing("guess");
    assert_eq!(manager.delete(&alias, &wrong), Err(UploadError::InvalidToken));
    assert_eq!(manager.unlink(&alias, &wrong), Err(UploadError::InvalidToken));
    assert_eq!(manager.repo().aliases.delete_token(&alias), Some(token.duplicate()));
    assert_eq!(manager.repo().aliases.hash(&alias), Some(hash(1)));
    assert!(manager.repo().aliases.is_created(&alias));
    assert_eq!(manager.repo().hashes.aliases(&hash(1)), vec![alias.clone()]);
    assert_eq!(manager.from_alias(&alias), Ok(b"original".to_vec()));
    assert_eq!(
        manager.delete(&Alias::from_existing("nobody.png"), &token),
        Err(UploadError::MissingAlias)
    );
    assert_eq!(manager.delete(&alias, &token), Ok(vec![b"original".to_vec()]));
}

#[test]
fn deletion_without_token_and_motion_previews() {
    let mut manager = UploadManager::new(Repo::open());
    manager.save_upload(b"original".to_vec(), hash(1));
    let alias = Alias::from_existing("clip.mp4");
    manager.add_existing_alias(&hash(1), &alias).ok().unwrap();
    manager.store_motion(hash(1), b"still".to_vec());
    assert_eq!(
        manager.repo().hashes.motion_identifier(&hash(1)),
        Some(b"still".to_vec())
    );
    assert_eq!(
        manager.delete_without_token(&Alias::from_existing("nobody.mp4")),
        Err(UploadError::MissingAlias)
    );
    let blobs = manager.delete_without_token(&alias).ok().unwrap();
    assert_eq!(sorted(blobs), vec![b"original".to_vec(), b"still".to_vec()]);
    assert_eq!(manager.check_delete_files(&hash(1)), Vec::<Vec<u8>>::new());
}

#[test]
fn lookups_report_what_is_missing() {
    let mut manager = UploadManager::new(Repo::open());
    let alias = Alias::from_existing("dangling.png");
    assert_eq!(manager.from_alias(&alias), Err(UploadError::MissingAlias));
    assert_eq!(
        manager.aliases_by_alias(&alias),
        Err(UploadError::MissingFilename)
    );
    manager.add_existing_alias(&hash(9), &alias).ok().unwrap();
    assert_eq!(manager.from_alias(&alias), Err(UploadError::MissingFile));
}

fn old_store() -> Old {
    Old {
        hashes: vec![
            OldHash {
                hash: hash(1),
                main_identifier: Some(b"files/1".to_vec()),
                aliases: vec![
                    OldAlias {
                        alias: Alias::from_existing("one.png"),
                        delete_token: Some(DeleteToken::from_existing("t1")),
                    },
                    OldAlias {
                        alias: Alias::from_existing("two.png"),
                        delete_token: None,
                    },
                ],
                motion_identifier: Some(b"files/1-motion".to_vec()),
                variants: Some(vec![(String::from("thumb/one.png"), b"files/1-thumb".to_vec())]),
                details: Some(vec![(b"files/1".to_vec(), details(1))]),
            },
            OldHash {
                hash: hash(2),
                main_identifier: None,
                aliases: vec![],
                motion_identifier: None,
                variants: None,
                details: None,
            },
            OldHash {
                hash: hash(3),
                main_identifier: Some(b"files/3".to_vec()),
                aliases: vec![OldAlias {
                    alias: Alias::from_existing("one.png"),
                    delete_token: Some(DeleteToken::from_existing("t3")),
                }],
                motion_identifier: None,
                variants: None,
                details: Some(vec![]),
            },
        ],
        store_migration_progress: Some(b"progress".to_vec()),
        generator_cursor: Some(vec![0, 1, 0, 7]),
    }
}

fn snapshot(repo: &Repo) -> Vec<String> {
    let mut out = Vec::new();
    for h in sorted(repo.hashes.hashes()) {
        let mut aliases: Vec<String> = repo.hashes.aliases(&h).iter().map(|a| a.to_string()).collect();
        aliases.sort();
        let mut variants = repo.hashes.variants(&h);
        variants.sort();
        out.push(format!(
            "{:?} {:?} {:?} {:?} {:?}",
            h[0],
            repo.hashes.identifier(&h),
            aliases,
            variants,
            repo.hashes.motion_identifier(&h)
        ));
    }
    for name in ["one.png", "two.png"] {
        let alias = Alias::from_existing(name);
        out.push(format!(
            "{} {:?} {:?} {:?}",
            name,
            repo.aliases.is_created(&alias),
            repo.aliases.hash(&alias).map(|h| h[0]),
            repo.aliases.delete_token(&alias).map(|t| t.to_string())
        ));
    }
    for key in ["repo-migration-01", "store-migration-progress", "last-path"] {
        out.push(format!("{} {:?}", key, repo.settings.get(&key.as_bytes().to_vec())));
    }
    out.push(format!("{:?}", repo.identifiers.details(&b"files/1".to_vec())));
    out
}

#[test]
fn migration_takes_every_hash_over() {
    let mut repo = Repo::open();
    assert!(!repo.has_migrated());
    let failed = repo.from_db(&old_store());
    assert_eq!(failed, 2);
    assert!(repo.has_migrated());
    assert_eq!(sorted(repo.hashes.hashes()), vec![hash(1), hash(2), hash(3)]);
    assert_eq!(repo.hashes.identifier(&hash(1)), Some(b"files/1".to_vec()));
    assert_eq!(repo.hashes.identifier(&hash(2)), None);
    assert_eq!(repo.hashes.identifier(&hash(3)), Some(b"files/3".to_vec()));
    assert_eq!(repo.hashes.motion_identifier(&hash(1)), Some(b"files/1-motion".to_vec()));
    assert_eq!(
        repo.hashes.variants(&hash(1)),
        vec![(String::from("thumb/one.png"), b"files/1-thumb".to_vec())]
    );
    let one = Alias::from_existing("one.png");
    let two = Alias::from_existing("two.png");
    let mut both = repo.hashes.aliases(&hash(1));
    both.sort();
    assert_eq!(both, vec![one.clone(), two.clone()]);
    assert_eq!(repo.hashes.aliases(&hash(3)), Vec::<Alias>::new());
    assert_eq!(repo.aliases.hash(&one), Some(hash(1)));
    assert_eq!(repo.aliases.delete_token(&one), Some(DeleteToken::from_existing("t1")));
    assert_eq!(repo.aliases.hash(&two), Some(hash(1)));
    assert_eq!(repo.aliases.delete_token(&two), None);
    assert_eq!(repo.identifiers.details(&b"files/1".to_vec()), Some(details(1)));
    assert_eq!(
        repo.settings.get(&b"store-migration-progress".to_vec()),
        Some(b"progress".to_vec())
    );
    assert_eq!(repo.settings.get(&b"last-path".to_vec()), Some(vec![0, 1, 0, 7]));
    assert_eq!(repo.settings.get(&b"repo-migration-01".to_vec()), Some(b"1".to_vec()));
}

#[test]
fn migration_is_idempotent() {
    let mut repo = Repo::open();
    repo.from_db(&old_store());
    let first = snapshot(&repo);
    let mut changed = old_store();
    changed.hashes[0].main_identifier = Some(b"elsewhere".to_vec());
    changed.generator_cursor = None;
    assert_eq!(repo.from_db(&changed), 0);
    assert_eq!(repo.from_db(&old_store()), 0);
    assert_eq!(snapshot(&repo), first);
}

#[test]
fn migrating_a_hash_twice_changes_nothing() {
    let mut repo = Repo::open();
    let old_store = old_store();
    assert!(migrate_hash(&mut repo, &old_store, &old_store.hashes[0]));
    let first = snapshot(&repo);
    let mut again = OldHash {
        hash: hash(1),
        main_identifier: None,
        aliases: vec![],
        motion_identifier: None,
        variants: None,
        details: None,
    };
    assert!(migrate_hash(&mut repo, &old_store, &again));
    again.main_identifier = Some(b"new".to_vec());
    assert!(migrate_hash(&mut repo, &old_store, &again));
    assert_eq!(snapshot(&repo), first);
    assert!(!migrate_hash(&mut repo, &old_store, &old_store.hashes[1]));
}

#[test]
fn old_keys() {
    assert_eq!(delete_key("alias.png"), "alias.png/delete");
    assert_eq!(alias_id_key("alias.png"), "alias.png/id");
    assert_eq!(motion_key("file.mp4"), "file.mp4/motion");
    assert_eq!(alias_key(&[1, 2], "7"), vec![1, 2, 0, b'7']);
    assert_eq!(alias_key_bounds(&[1, 2]), (vec![1, 2, 0], vec![1, 2, 1]));
    assert_eq!(
        variant_key("thumbnail/100/file.png", "file.png"),
        b"file.png/thumbnail/100/file.png".to_vec()
    );
    assert_eq!(
        details_key("files/001/file.png", "file.png"),
        b"file.png/files/001/file.png".to_vec()
    );
}

fn entry(key: &[u8], value: &[u8]) -> (Vec<u8>, Vec<u8>) {
    (key.to_vec(), value.to_vec())
}

fn old_trees() -> OldTrees {
    let h1 = hash(1);
    let h2 = hash(2);
    let mut main = vec![
        (h1.clone(), b"one.png".to_vec()),
        (alias_key(&h1, "1"), b"first.png".to_vec()),
        (alias_key(&h1, "2"), vec![0xff; 3]),
        (alias_key(&h1, "3"), b"second.png".to_vec()),
        (h2.clone(), b"two.mp4".to_vec()),
        (alias_key(&h2, "1"), b"clip.mp4".to_vec()),
    ];
    main.sort();
    OldTrees {
        alias: vec![
            entry(b"clip.mp4", &h2),
            entry(b"first.png", &h1),
            entry(b"first.png/delete", b"token-1"),
            entry(b"first.png/id", b"1"),
            entry(b"second.png", &h1),
        ],
        main,
        filename: vec![entry(b"one.png", &h1), entry(b"three.png", &hash(3)), entry(b"two.mp4", &h2)],
        path: vec![
            entry(b"one.png", b"files/001/one.png"),
            entry(b"one.png/thumbnail/100/one.png.jpg", b"files/002/thumb"),
            entry(b"one.pngx", b"files/other"),
            entry(b"two.mp4", b"files/003/two.mp4"),
            entry(b"two.mp4/motion", b"files/004/still.jpg"),
        ],
        details: vec![
            (b"one.png/files/001/one.png".to_vec(), details(1)),
            (b"one.png/files/002/thumb".to_vec(), details(2)),
            (b"two.mp4/files/003/two.mp4".to_vec(), details(3)),
        ],
        settings: vec![entry(b"last-path", &[0, 1, 0, 9])],
    }
}

#[test]
fn old_trees_are_read() {
    let old = old_trees().read();
    assert_eq!(old.generator_cursor, Some(vec![0, 1, 0, 9]));
    assert_eq!(old.store_migration_progress, None);
    assert_eq!(old.hashes.len(), 3);

    let one = &old.hashes[0];
    assert_eq!(one.hash, hash(1));
    assert_eq!(one.main_identifier, Some(b"files/001/one.png".to_vec()));
    assert_eq!(one.motion_identifier, None);
    assert_eq!(one.aliases.len(), 2);
    assert_eq!(one.aliases[0].alias, Alias::from_existing("first.png"));
    assert_eq!(
        one.aliases[0].delete_token,
        Some(DeleteToken::from_existing("token-1"))
    );
    assert_eq!(one.aliases[1].alias, Alias::from_existing("second.png"));
    assert_eq!(one.aliases[1].delete_token, None);
    assert_eq!(
        one.variants,
        Some(vec![(
            String::from("thumbnail/100/one.png.jpg"),
            b"files/002/thumb".to_vec()
        )])
    );
    assert_eq!(
        one.details,
        Some(vec![
            (b"files/001/one.png".to_vec(), details(1)),
            (b"files/002/thumb".to_vec(), details(2))
        ])
    );

    let missing = &old.hashes[1];
    assert_eq!(missing.hash, hash(3));
    assert_eq!(missing.main_identifier, None);
    assert_eq!(missing.variants, None);
    assert_eq!(missing.details, None);
    assert_eq!(missing.aliases.len(), 0);

    let two = &old.hashes[2];
    assert_eq!(two.main_identifier, Some(b"files/003/two.mp4".to_vec()));
    assert_eq!(two.motion_identifier, Some(b"files/004/still.jpg".to_vec()));
    assert_eq!(two.variants, Some(vec![]));
    assert_eq!(two.aliases[0].alias, Alias::from_existing("clip.mp4"));
}

#[test]
fn migration_from_trees() {
    let mut repo = Repo::open();
    assert_eq!(repo.from_trees(&old_trees()), 1);
    assert!(repo.has_migrated());
    assert_eq!(repo.hashes.identifier(&hash(1)), Some(b"files/001/one.png".to_vec()));
    assert_eq!(repo.hashes.motion_identifier(&hash(2)), Some(b"files/004/still.jpg".to_vec()));
    assert_eq!(repo.aliases.hash(&Alias::from_existing("second.png")), Some(hash(1)));
    assert_eq!(
        repo.aliases.delete_token(&Alias::from_existing("first.png")),
        Some(DeleteToken::from_existing("token-1"))
    );
    assert_eq!(repo.identifiers.details(&b"files/002/thumb".to_vec()), Some(details(2)));
    assert_eq!(repo.settings.get(&b"last-path".to_vec()), Some(vec![0, 1, 0, 9]));
    let first = snapshot(&repo);
    assert_eq!(repo.from_trees(&old_trees()), 0);
    assert_eq!(snapshot(&repo), first);
    assert_eq!(find_entry(&old_trees().settings, b"last-path"), Some(&vec![0, 1, 0, 9]));
    assert_eq!(find_entry(&old_trees().settings, b"missing"), None);
}

#[test]
fn failed_uploads_take_their_alias_along() {
    let mut manager = UploadManager::new(Repo::open());
    let mut session = manager.session();
    assert_eq!(session.alias(), None);
    assert_eq!(session.delete_token(&manager), Err(UploadError::MissingAlias));
    assert_eq!(
        session.upload(&mut manager, b"blob".to_vec(), hash(1), ".png", 4),
        Ok(true)
    );
    let alias = session.alias().cloned().unwrap();
    assert_eq!(alias.extension(), Some(".png"));
    assert_eq!(manager.from_alias(&alias), Ok(b"blob".to_vec()));
    let token = session.delete_token(&manager).ok().unwrap();
    assert_eq!(manager.repo().aliases.delete_token(&alias), Some(token));
    assert_eq!(session.close(&mut manager), vec![b"blob".to_vec()]);
    assert_eq!(manager.from_alias(&alias), Err(UploadError::MissingAlias));
    assert!(!manager.repo().hashes.is_created(&hash(1)));

    let mut kept = manager.session();
    assert_eq!(
        kept.upload(&mut manager, b"blob".to_vec(), hash(1), ".png", 4),
        Ok(true)
    );
    let mut second = manager.session();
    assert_eq!(
        second.upload(&mut manager, b"copy".to_vec(), hash(1), ".png", 4),
        Ok(false)
    );
    let first_alias = kept.alias().cloned().unwrap();
    let second_alias = second.alias().cloned().unwrap();
    kept.succeed();
    assert_eq!(kept.close(&mut manager), Vec::<Vec<u8>>::new());
    assert_eq!(second.close(&mut manager), Vec::<Vec<u8>>::new());
    assert_eq!(manager.from_alias(&first_alias), Ok(b"blob".to_vec()));
    assert_eq!(manager.from_alias(&second_alias), Err(UploadError::MissingAlias));

    let mut refused = manager.session();
    assert_eq!(
        refused.upload(&mut manager, b"x".to_vec(), hash(2), ".png", 0),
        Err(UploadError::DuplicateAlias)
    );
    assert_eq!(refused.close(&mut manager), Vec::<Vec<u8>>::new());
    assert!(manager.repo().hashes.is_created(&hash(2)));
}

#[test]
fn recorded_variants_are_found_again() {
    let mut manager = UploadManager::new(Repo::open());
    manager.save_upload(b"original".to_vec(), hash(1));
    manager.store_variant(hash(1), String::from("resize/100/a.png.webp"), b"v".to_vec());
    manager.store_variant(hash(1), String::from("blur/2/a.png.webp"), b"w".to_vec());
    manager.store_variant(hash(2), String::from("resize/100/a.png.webp"), b"x".to_vec());
    assert_eq!(
        manager
            .repo()
            .hashes
            .variant_identifier(hash(1), String::from("resize/100/a.png.webp")),
        Some(b"v".to_vec())
    );
}

#[test]
fn an_alias_is_owed_where_none_is_in_the_way() {
    let mut manager = UploadManager::new(Repo::open());
    manager.save_upload(b"blob".to_vec(), hash(1));
    manager
        .add_existing_alias(&hash(1), &Alias::from_existing("named.png"))
        .ok()
        .unwrap();
    let (alias, token) = manager.add_alias(&hash(1), ".png", 1).unwrap();
    assert_eq!(alias.extension(), Some(".png"));
    assert_eq!(manager.repo().aliases.hash(&alias), Some(hash(1)));
    assert_eq!(manager.repo().aliases.delete_token(&alias), Some(token));
    assert_eq!(manager.add_alias(&hash(1), ".png", 0), None);
    assert_eq!(manager.repo().hashes.aliases(&hash(1)).len(), 2);
}
