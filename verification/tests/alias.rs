use pict_rs::alias::{split_at_dot, Alias, DeleteToken};
use pict_rs::ident::MaybeUuid;
use uuid::Uuid;

#[test]
fn string_delete_token() {
    let delete_token = DeleteToken::from_existing("blah");

    assert_eq!(
        delete_token,
        DeleteToken {
            id: MaybeUuid::Name(String::from("blah"))
        }
    )
}

#[test]
fn uuid_string_delete_token() {
    let uuid = Uuid::new_v4();

    let delete_token = DeleteToken::from_existing(&uuid.to_string());

    assert_eq!(
        delete_token,
        DeleteToken {
            id: MaybeUuid::Uuid(uuid.into_bytes()),
        }
    )
}

#[test]
fn bytes_delete_token() {
    let delete_token = DeleteToken::from_slice(b"blah").unwrap();

    assert_eq!(
        delete_token,
        DeleteToken {
            id: MaybeUuid::Name(String::from("blah"))
        }
    )
}

#[test]
fn uuid_bytes_delete_token() {
    let uuid = Uuid::new_v4();

    let delete_token = DeleteToken::from_slice(&uuid.as_bytes()[..]).unwrap();

    assert_eq!(
        delete_token,
        DeleteToken {
            id: MaybeUuid::Uuid(uuid.into_bytes()),
        }
    )
}

#[test]
fn uuid_bytes_string_delete_token() {
    let uuid = Uuid::new_v4();

    let delete_token = DeleteToken::from_slice(uuid.to_string().as_bytes()).unwrap();

    assert_eq!(
        delete_token,
        DeleteToken {
            id: MaybeUuid::Uuid(uuid.into_bytes()),
        }
    )
}

#[test]
fn string_alias() {
    let alias = Alias::from_existing("blah");

    assert_eq!(
        alias,
        Alias {
            id: MaybeUuid::Name(String::from("blah")),
            extension: None
        }
    );
}

#[test]
fn string_alias_ext() {
    let alias = Alias::from_existing("blah.mp4");

    assert_eq!(
        alias,
        Alias {
            id: MaybeUuid::Name(String::from("blah")),
            extension: Some(String::from(".mp4")),
        }
    );
}

#[test]
fn uuid_string_alias() {
    let uuid = Uuid::new_v4();

    let alias = Alias::from_existing(&uuid.to_string());

    assert_eq!(
        alias,
        Alias {
            id: MaybeUuid::Uuid(uuid.into_bytes()),
            extension: None,
        }
    )
}

#[test]
fn uuid_string_alias_ext() {
    let uuid = Uuid::new_v4();

    let alias_str = format!("{}.mp4", uuid);
    let alias = Alias::from_existing(&alias_str);

    assert_eq!(
        alias,
        Alias {
            id: MaybeUuid::Uuid(uuid.into_bytes()),
            extension: Some(String::from(".mp4")),
        }
    )
}

#[test]
fn bytes_alias() {
    let alias = Alias::from_slice(b"blah").unwrap();

    assert_eq!(
        alias,
        Alias {
            id: MaybeUuid::Name(String::from("blah")),
            extension: None
        }
    );
}

#[test]
fn bytes_alias_ext() {
    let alias = Alias::from_slice(b"blah.mp4").unwrap();

    assert_eq!(
        alias,
        Alias {
            id: MaybeUuid::Name(String::from("blah")),
            extension: Some(String::from(".mp4")),
        }
    );
}

#[test]
fn uuid_bytes_alias() {
    let uuid = Uuid::new_v4();

    let alias = Alias::from_slice(&uuid.as_bytes()[..]).unwrap();

    assert_eq!(
        alias,
        Alias {
            id: MaybeUuid::Uuid(uuid.into_bytes()),
            extension: None,
        }
    )
}

#[test]
fn uuid_bytes_string_alias() {
    let uuid = Uuid::new_v4();

    let alias = Alias::from_slice(uuid.to_string().as_bytes()).unwrap();

    assert_eq!(
        alias,
        Alias {
            id: MaybeUuid::Uuid(uuid.into_bytes()),
            extension: None,
        }
    )
}

#[test]
fn uuid_bytes_alias_ext() {
    let uuid = Uuid::new_v4();

    let mut alias_bytes = uuid.as_bytes().to_vec();
    alias_bytes.extend_from_slice(b".mp4");

    let alias = Alias::from_slice(&alias_bytes).unwrap();

    assert_eq!(
        alias,
        Alias {
            id: MaybeUuid::Uuid(uuid.into_bytes()),
            extension: Some(String::from(".mp4")),
        }
    )
}

#[test]
fn uuid_bytes_string_alias_ext() {
    let uuid = Uuid::new_v4();

    let alias_str = format!("{}.mp4", uuid);
    let alias = Alias::from_slice(alias_str.as_bytes()).unwrap();

    assert_eq!(
        alias,
        Alias {
            id: MaybeUuid::Uuid(uuid.into_bytes()),
            extension: Some(String::from(".mp4")),
        }
    )
}

#[test]
fn alias_text_is_hyphenated_lower_case() {
    let bytes = [
        0xa1, 0xa2, 0xa3, 0xa4, 0xb1, 0xb2, 0xc1, 0xc2, 0xd1, 0xd2, 0xd3, 0xd4, 0xd5, 0xd6, 0xd7,
        0x0f,
    ];
    let alias = Alias {
        id: MaybeUuid::Uuid(bytes),
        extension: Some(String::from(".png")),
    };
    assert_eq!(
        alias.to_string(),
        "a1a2a3a4-b1b2-c1c2-d1d2-d3d4d5d6d70f.png"
    );
    let token = DeleteToken {
        id: MaybeUuid::Uuid(bytes),
    };
    assert_eq!(token.to_string(), "a1a2a3a4-b1b2-c1c2-d1d2-d3d4d5d6d70f");
}

#[test]
fn alias_text_round_trip() {
    let uuid = Uuid::new_v4().into_bytes();
    let cases = vec![
        Alias {
            id: MaybeUuid::Uuid(uuid),
            extension: Some(String::from(".webm")),
        },
        Alias {
            id: MaybeUuid::Uuid(uuid),
            extension: None,
        },
        Alias {
            id: MaybeUuid::Name(String::from("imported-name")),
            extension: None,
        },
        Alias {
            id: MaybeUuid::Name(String::from("imported")),
            extension: Some(String::from(".tar.gz")),
        },
    ];
    for alias in cases {
        assert_eq!(Alias::from_existing(&alias.to_string()), alias);
    }
}

#[test]
fn alias_bytes_round_trip() {
    let mut uuid = Uuid::new_v4().into_bytes();
    uuid[0] = 0xff;
    let cases = vec![
        Alias {
            id: MaybeUuid::Uuid(uuid),
            extension: Some(String::from(".webm")),
        },
        Alias {
            id: MaybeUuid::Uuid(uuid),
            extension: None,
        },
        Alias {
            id: MaybeUuid::Name(String::from("imported")),
            extension: Some(String::from(".jpg")),
        },
        Alias {
            id: MaybeUuid::Name(String::from("h\u{e9}llo")),
            extension: None,
        },
    ];
    for alias in cases {
        assert_eq!(Alias::from_slice(&alias.to_bytes()), Some(alias));
    }
}

#[test]
fn alias_bytes_are_id_then_extension() {
    let alias = Alias {
        id: MaybeUuid::Uuid([7u8; 16]),
        extension: Some(String::from(".png")),
    };
    let mut expected = vec![7u8; 16];
    expected.extend_from_slice(b".png");
    assert_eq!(alias.to_bytes(), expected);
    let named = Alias::from_existing("blah.mp4");
    assert_eq!(named.to_bytes(), b"blah.mp4".to_vec());
}

#[test]
fn valid_utf8_prefers_the_text_path() {
    let bytes = [0x61u8; 16];
    let mut encoded = bytes.to_vec();
    encoded.extend_from_slice(b".png");
    let alias = Alias::from_slice(&encoded).unwrap();
    assert_eq!(
        alias,
        Alias {
            id: MaybeUuid::Name(String::from("aaaaaaaaaaaaaaaa")),
            extension: Some(String::from(".png")),
        }
    );
    let token = DeleteToken::from_slice(&bytes).unwrap();
    assert_eq!(
        token,
        DeleteToken {
            id: MaybeUuid::Name(String::from("aaaaaaaaaaaaaaaa")),
        }
    );
}

#[test]
fn short_or_malformed_bytes_are_refused() {
    assert_eq!(Alias::from_slice(&[0xff, 0xfe, 0xfd]), None);
    assert_eq!(DeleteToken::from_slice(&[0xff, 0xfe, 0xfd]), None);
    assert_eq!(DeleteToken::from_slice(&[0xffu8; 17]), None);
    assert_eq!(DeleteToken::from_slice(&[0xffu8; 15]), None);
}

#[test]
fn malformed_extension_is_repaired() {
    let mut bytes = vec![0xffu8; 16];
    bytes.extend_from_slice(&[b'.', 0xff, b'x']);
    let alias = Alias::from_slice(&bytes).unwrap();
    assert_eq!(
        alias,
        Alias {
            id: MaybeUuid::Uuid([0xffu8; 16]),
            extension: Some(String::from(".\u{fffd}x")),
        }
    );
}

#[test]
fn token_bytes_round_trip() {
    let mut uuid = Uuid::new_v4().into_bytes();
    uuid[3] = 0xfe;
    let token = DeleteToken {
        id: MaybeUuid::Uuid(uuid),
    };
    assert_eq!(token.to_bytes(), uuid.to_vec());
    assert_eq!(DeleteToken::from_slice(&token.to_bytes()), Some(token));
    let named = DeleteToken::from_existing("secret");
    assert_eq!(named.to_bytes(), b"secret".to_vec());
    assert_eq!(DeleteToken::from_slice(&named.to_bytes()), Some(named));
}

#[test]
fn other_notations_read_as_the_same_uuid() {
    let plain = DeleteToken::from_existing("936da01f9abd4d9d80c702af85c822a8");
    let hyphenated = DeleteToken::from_existing("936DA01F-9ABD-4D9D-80C7-02AF85C822A8");
    assert_eq!(plain, hyphenated);
    assert_eq!(plain.to_string(), "936da01f-9abd-4d9d-80c7-02af85c822a8");
}

#[test]
fn generated_aliases_are_uuids_with_the_extension() {
    let alias = Alias::generate(String::from(".png"));
    assert!(matches!(alias.id, MaybeUuid::Uuid(_)));
    assert_eq!(alias.extension(), Some(".png"));
    let other = Alias::generate(String::from(".png"));
    assert_ne!(alias, other);
    assert!(matches!(DeleteToken::generate().id, MaybeUuid::Uuid(_)));
}

#[test]
fn same_tells_representations_apart() {
    let uuid = Alias::from_existing("936da01f-9abd-4d9d-80c7-02af85c822a8.png");
    let name = Alias {
        id: MaybeUuid::Name(String::from("936da01f-9abd-4d9d-80c7-02af85c822a8")),
        extension: Some(String::from(".png")),
    };
    assert!(uuid.same(&uuid.duplicate()));
    assert!(!uuid.same(&name));
    assert!(uuid < name);
}

#[test]
fn split_at_dot_cuts_before_the_first_dot() {
    assert_eq!(split_at_dot("a.b.c"), Some(("a", ".b.c")));
    assert_eq!(split_at_dot(".hidden"), Some(("", ".hidden")));
    assert_eq!(split_at_dot("nodot"), None);
    assert_eq!(split_at_dot("h\u{e9}.x"), Some(("h\u{e9}", ".x")));
}

#[test]
fn generated_uuids_are_version_four() {
    for _ in 0..64 {
        let ids = [
            DeleteToken::generate().id,
            Alias::generate(String::from(".png")).id,
            MaybeUuid::generate(),
        ];
        for id in ids {
            match id {
                MaybeUuid::Uuid(bytes) => {
                    assert_eq!(bytes[6] >> 4, 4);
                    assert_eq!(bytes[8] >> 6, 2);
                    assert_eq!(Uuid::from_bytes(bytes).get_version_num(), 4);
                }
                MaybeUuid::Name(name) => panic!("{}", name),
            }
        }
    }
}

#[test]
fn texts_of_other_lengths_are_names() {
    for text in ["", "blah", "936da01f-9abd-4d9d-80c7", "936da01f-9abd-4d9d-80c7-02af85c822a8-and-more"] {
        assert_eq!(
            DeleteToken::from_existing(text),
            DeleteToken {
                id: MaybeUuid::Name(String::from(text))
            }
        );
    }
    assert!(matches!(
        DeleteToken::from_existing("{936da01f-9abd-4d9d-80c7-02af85c822a8}").id,
        MaybeUuid::Uuid(_)
    ));
    assert!(matches!(
        DeleteToken::from_existing("urn:uuid:936da01f-9abd-4d9d-80c7-02af85c822a8").id,
        MaybeUuid::Uuid(_)
    ));
}
