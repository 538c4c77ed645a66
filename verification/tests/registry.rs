use alas_latinas::records::Error;
use alas_latinas::registry::AlasLatinas;

fn s(t: &str) -> String {
    t.to_string()
}

#[test]
fn test_register_user() {
    let mut reg = AlasLatinas::new();

    let user_id = s("user_alice");
    let name = s("Alice Johnson");
    let email = s("alice@example.com");
    let phone = s("555-0001");
    let birth_date = s("1990-05-15");
    let gender = s("Female");

    reg.register_user(
        user_id.clone(),
        name.clone(),
        email.clone(),
        phone.clone(),
        birth_date.clone(),
        gender.clone(),
    )
    .unwrap();

    let user = reg.get_user(user_id);
    assert!(user.is_some());
    let u = user.unwrap();
    assert_eq!(u.name, name);
    assert_eq!(u.email, email);
    assert_eq!(u.phone, phone);
    assert_eq!(u.birth_date, birth_date);
    assert_eq!(u.gender, gender);
}

#[test]
fn test_delete_user() {
    let mut reg = AlasLatinas::new();

    let user_id = s("user_bob");
    reg.register_user(
        user_id.clone(),
        s("Bob"),
        s("bob@example.com"),
        s("555-0002"),
        s("1985-03-20"),
        s("Male"),
    )
    .unwrap();

    reg.delete_user(user_id.clone()).unwrap();
    let user = reg.get_user(user_id);
    assert!(user.is_none());
}

#[test]
fn test_update_user() {
    let mut reg = AlasLatinas::new();

    let user_id = s("user_carol");
    reg.register_user(
        user_id.clone(),
        s("Carol"),
        s("carol@example.com"),
        s("555-0003"),
        s("1992-07-10"),
        s("Female"),
    )
    .unwrap();

    let new_email = s("carol.new@example.com");
    reg.update_user(user_id.clone(), None, Some(new_email.clone()), None)
        .unwrap();

    let user = reg.get_user(user_id);
    assert!(user.is_some());
    assert_eq!(user.unwrap().email, new_email);
}

#[test]
fn test_list_users() {
    let mut reg = AlasLatinas::new();

    reg.register_user(
        s("user_david"),
        s("David"),
        s("david@example.com"),
        s("555-0004"),
        s("1988-11-25"),
        s("Male"),
    )
    .unwrap();
    reg.register_user(
        s("user_eve"),
        s("Eve"),
        s("eve@example.com"),
        s("555-0005"),
        s("1995-02-14"),
        s("Female"),
    )
    .unwrap();

    let users = reg.list_users();
    assert_eq!(users.len(), 2);
}

#[test]
fn test_authenticate_user() {
    let mut reg = AlasLatinas::new();

    let user_id = s("user_frank");
    reg.register_user(
        user_id.clone(),
        s("Frank"),
        s("frank@example.com"),
        s("555-0006"),
        s("1991-09-03"),
        s("Male"),
    )
    .unwrap();

    assert!(reg.authenticate_user(user_id));
    assert!(!reg.authenticate_user(s("user_unknown")));
}

#[test]
fn test_create_destination() {
    let mut reg = AlasLatinas::new();

    let dest_id = s("dest_001");
    let name = s("Cancun Beach Paradise");
    let address = s("Blvd. Kukulkan KM 12.5");
    let location = s("Cancun, Mexico");
    let description = s("Beautiful Caribbean beach with white sand and crystal clear water");

    reg.create_destination(
        dest_id.clone(),
        name.clone(),
        address.clone(),
        location.clone(),
        description.clone(),
    )
    .unwrap();

    let dest = reg.get_destination(dest_id);
    assert!(dest.is_some());
    let d = dest.unwrap();
    assert_eq!(d.name, name);
    assert_eq!(d.address, address);
    assert_eq!(d.location, location);
    assert_eq!(d.description, description);
    assert_eq!(d.rating, 0u32);
}

#[test]
fn test_delete_destination() {
    let mut reg = AlasLatinas::new();

    let dest_id = s("dest_002");
    reg.create_destination(
        dest_id.clone(),
        s("Mountain Resort"),
        s("Km 45 Highway"),
        s("Morelia, Mexico"),
        s("Serene mountain getaway"),
    )
    .unwrap();

    reg.delete_destination(dest_id.clone()).unwrap();
    let dest = reg.get_destination(dest_id);
    assert!(dest.is_none());
}

#[test]
fn test_update_destination() {
    let mut reg = AlasLatinas::new();

    let dest_id = s("dest_003");
    reg.create_destination(
        dest_id.clone(),
        s("City Tour"),
        s("Downtown"),
        s("Mexico City"),
        s("Historic city center"),
    )
    .unwrap();

    let new_desc = s("Updated historic city center with modern amenities");
    reg.update_destination(dest_id.clone(), None, None, Some(new_desc.clone()))
        .unwrap();

    let dest = reg.get_destination(dest_id);
    assert!(dest.is_some());
    assert_eq!(dest.unwrap().description, new_desc);
}

#[test]
fn test_list_destinations() {
    let mut reg = AlasLatinas::new();

    reg.create_destination(s("dest_004"), s("Beach A"), s("Addr A"), s("Loc A"), s("Desc A"))
        .unwrap();
    reg.create_destination(s("dest_005"), s("Beach B"), s("Addr B"), s("Loc B"), s("Desc B"))
        .unwrap();

    let dests = reg.list_destinations();
    assert_eq!(dests.len(), 2);
}

#[test]
fn test_upload_media() {
    let mut reg = AlasLatinas::new();

    let dest_id = s("dest_006");
    reg.create_destination(dest_id.clone(), s("Photo Destination"), s("Addr"), s("Loc"), s("Desc"))
        .unwrap();

    reg.upload_media(
        dest_id.clone(),
        s("https://example.com/photo.jpg"),
        s("image/jpeg"),
    );

    // store a second entry as well
    reg.upload_media(
        dest_id,
        s("https://example.com/video.mp4"),
        s("video/mp4"),
    );
}

#[test]
fn test_add_comment() {
    let mut reg = AlasLatinas::new();

    let dest_id = s("dest_007");
    reg.create_destination(dest_id.clone(), s("Rated Destination"), s("Addr"), s("Loc"), s("Desc"))
        .unwrap();

    reg.add_comment(
        dest_id.clone(),
        s("user_commenter"),
        s("Amazing place! Highly recommended!"),
        5u32,
    )
    .unwrap();

    let dest = reg.get_destination(dest_id);
    assert!(dest.is_some());
    assert_eq!(dest.unwrap().rating, 5u32);
}

#[test]
fn test_create_reservation() {
    let mut reg = AlasLatinas::new();

    let res_id = s("res_001");
    reg.create_reservation(
        res_id.clone(),
        s("user_guest"),
        s("dest_008"),
        s("2025-01-15"),
        s("2025-01-22"),
        1500u64,
    )
    .unwrap();

    let status = reg.get_reservation_status(res_id);
    assert_eq!(status, Some(s("reserved")));
}

#[test]
fn test_cancel_reservation() {
    let mut reg = AlasLatinas::new();

    let res_id = s("res_002");
    reg.create_reservation(
        res_id.clone(),
        s("user_guest"),
        s("dest_009"),
        s("2025-02-01"),
        s("2025-02-08"),
        2000u64,
    )
    .unwrap();

    reg.cancel_reservation(res_id.clone()).unwrap();
    let status = reg.get_reservation_status(res_id);
    assert_eq!(status, Some(s("cancelled")));
}

#[test]
fn test_get_reservation_status() {
    let mut reg = AlasLatinas::new();

    let res_id = s("res_003");
    reg.create_reservation(
        res_id.clone(),
        s("user_guest"),
        s("dest_010"),
        s("2025-03-01"),
        s("2025-03-07"),
        1800u64,
    )
    .unwrap();

    let status = reg.get_reservation_status(res_id);
    assert_eq!(status, Some(s("reserved")));
}

#[test]
fn test_pay_reservation() {
    let mut reg = AlasLatinas::new();

    let res_id = s("res_004");
    reg.create_reservation(
        res_id.clone(),
        s("user_guest"),
        s("dest_011"),
        s("2025-04-01"),
        s("2025-04-10"),
        2500u64,
    )
    .unwrap();

    reg.pay_reservation(res_id.clone(), s("tx_payment_12345"));

    let status = reg.get_reservation_status(res_id);
    assert_eq!(status, Some(s("reserved")));
}

#[test]
fn test_full_booking_flow() {
    let mut reg = AlasLatinas::new();

    let user_id = s("user_grace");
    reg.register_user(
        user_id.clone(),
        s("Grace Lopez"),
        s("grace@example.com"),
        s("555-0010"),
        s("1994-06-12"),
        s("Female"),
    )
    .unwrap();
    assert!(reg.authenticate_user(user_id.clone()));

    let dest_id = s("dest_full_flow");
    reg.create_destination(
        dest_id.clone(),
        s("Dream Resort"),
        s("123 Resort Lane"),
        s("Paradise Island"),
        s("Luxurious beachfront resort"),
    )
    .unwrap();

    reg.add_comment(dest_id.clone(), user_id.clone(), s("Excellent service!"), 5u32)
        .unwrap();

    let res_id = s("res_full_flow");
    reg.create_reservation(
        res_id.clone(),
        user_id.clone(),
        dest_id.clone(),
        s("2025-05-01"),
        s("2025-05-15"),
        3500u64,
    )
    .unwrap();
    assert_eq!(reg.get_reservation_status(res_id.clone()), Some(s("reserved")));

    reg.pay_reservation(res_id, s("tx_full_flow_001"));

    let dest_final = reg.get_destination(dest_id);
    assert!(dest_final.is_some());
    let user_final = reg.get_user(user_id);
    assert!(user_final.is_some());
}

#[test]
fn test_register_duplicate_rejected_state_unchanged() {
    let mut reg = AlasLatinas::new();

    let user_id = s("user_dup");
    reg.register_user(
        user_id.clone(),
        s("First"),
        s("first@example.com"),
        s("555-1000"),
        s("1980-01-01"),
        s("Male"),
    )
    .unwrap();

    let r = reg.register_user(
        user_id.clone(),
        s("Second"),
        s("second@example.com"),
        s("555-2000"),
        s("1981-02-02"),
        s("Female"),
    );
    assert_eq!(r, Err(Error::DuplicateEntity));

    // the stored record is untouched
    let u = reg.get_user(user_id).unwrap();
    assert_eq!(u.name, s("First"));
    assert_eq!(u.email, s("first@example.com"));
    assert_eq!(reg.list_users().len(), 1);

    let d = reg.create_destination(s("dest_dup"), s("N"), s("A"), s("L"), s("D"));
    assert!(d.is_ok());
    let d2 = reg.create_destination(s("dest_dup"), s("N2"), s("A2"), s("L2"), s("D2"));
    assert_eq!(d2, Err(Error::DuplicateEntity));

    reg.create_reservation(s("res_dup"), s("u"), s("d"), s("in"), s("out"), 1u64)
        .unwrap();
    let r2 = reg.create_reservation(s("res_dup"), s("u"), s("d"), s("in"), s("out"), 2u64);
    assert_eq!(r2, Err(Error::DuplicateEntity));
}

#[test]
fn test_mutators_on_unknown_id_fail_not_found() {
    let mut reg = AlasLatinas::new();

    assert_eq!(reg.delete_user(s("ghost")), Err(Error::NotFound));
    assert_eq!(reg.update_user(s("ghost"), Some(s("x")), None, None), Err(Error::NotFound));
    assert_eq!(reg.delete_destination(s("ghost")), Err(Error::NotFound));
    assert_eq!(
        reg.update_destination(s("ghost"), None, Some(s("x")), None),
        Err(Error::NotFound)
    );
    assert_eq!(
        reg.add_comment(s("ghost"), s("u"), s("nice"), 4u32),
        Err(Error::NotFound)
    );
    assert_eq!(reg.cancel_reservation(s("ghost")), Err(Error::NotFound));
}

#[test]
fn test_update_all_fields_omitted_is_identity() {
    let mut reg = AlasLatinas::new();

    let user_id = s("user_idem");
    reg.register_user(
        user_id.clone(),
        s("Idem"),
        s("idem@example.com"),
        s("555-3000"),
        s("1979-12-31"),
        s("Male"),
    )
    .unwrap();

    reg.update_user(user_id.clone(), None, None, None).unwrap();
    let u = reg.get_user(user_id.clone()).unwrap();
    assert_eq!(u.name, s("Idem"));
    assert_eq!(u.email, s("idem@example.com"));
    assert_eq!(u.phone, s("555-3000"));
    assert_eq!(u.birth_date, s("1979-12-31"));
    assert_eq!(u.gender, s("Male"));

    // updating one field leaves every other field unchanged
    reg.update_user(user_id.clone(), Some(s("Idem Renamed")), None, None)
        .unwrap();
    let u2 = reg.get_user(user_id).unwrap();
    assert_eq!(u2.name, s("Idem Renamed"));
    assert_eq!(u2.email, s("idem@example.com"));
    assert_eq!(u2.phone, s("555-3000"));
    assert_eq!(u2.birth_date, s("1979-12-31"));
    assert_eq!(u2.gender, s("Male"));

    let dest_id = s("dest_idem");
    reg.create_destination(dest_id.clone(), s("N"), s("A"), s("L"), s("D"))
        .unwrap();
    reg.update_destination(dest_id.clone(), None, None, None).unwrap();
    let d = reg.get_destination(dest_id).unwrap();
    assert_eq!(d.name, s("N"));
    assert_eq!(d.address, s("A"));
    assert_eq!(d.location, s("L"));
    assert_eq!(d.description, s("D"));
    assert_eq!(d.rating, 0u32);
}

#[test]
fn test_incremental_rating_truncation() {
    let mut reg = AlasLatinas::new();

    let dest_id = s("dest_rating");
    reg.create_destination(dest_id.clone(), s("N"), s("A"), s("L"), s("D"))
        .unwrap();

    reg.add_comment(dest_id.clone(), s("u1"), s("great"), 5u32).unwrap();
    assert_eq!(reg.get_destination(dest_id.clone()).unwrap().rating, 5u32);

    reg.add_comment(dest_id.clone(), s("u2"), s("poor"), 1u32).unwrap();
    assert_eq!(reg.get_destination(dest_id.clone()).unwrap().rating, 3u32);

    reg.add_comment(dest_id.clone(), s("u3"), s("poor"), 1u32).unwrap();
    assert_eq!(reg.get_destination(dest_id).unwrap().rating, 2u32);
}

#[test]
fn test_delete_then_recreate_destination() {
    let mut reg = AlasLatinas::new();

    let dest_id = s("dest_again");
    reg.create_destination(dest_id.clone(), s("N"), s("A"), s("L"), s("D"))
        .unwrap();
    reg.delete_destination(dest_id.clone()).unwrap();
    assert!(reg.get_destination(dest_id.clone()).is_none());
    assert_eq!(reg.list_destinations().len(), 0);

    reg.create_destination(dest_id.clone(), s("N2"), s("A2"), s("L2"), s("D2"))
        .unwrap();
    let d = reg.get_destination(dest_id).unwrap();
    assert_eq!(d.name, s("N2"));
    assert_eq!(d.rating, 0u32);
}

#[test]
fn test_pay_unknown_reservation_is_silent() {
    let mut reg = AlasLatinas::new();

    reg.create_reservation(s("res_known"), s("u"), s("d"), s("in"), s("out"), 9u64)
        .unwrap();

    // no error, no observable effect
    reg.pay_reservation(s("res_ghost"), s("tx_0001"));
    assert_eq!(reg.get_reservation_status(s("res_ghost")), None);
    assert_eq!(reg.get_reservation_status(s("res_known")), Some(s("reserved")));
}

#[test]
fn test_pay_after_cancel_keeps_cancelled() {
    let mut reg = AlasLatinas::new();

    let user_id = s("user_e2e");
    reg.register_user(
        user_id.clone(),
        s("End ToEnd"),
        s("e2e@example.com"),
        s("555-9000"),
        s("1990-01-01"),
        s("Female"),
    )
    .unwrap();

    let dest_id = s("dest_e2e");
    reg.create_destination(dest_id.clone(), s("N"), s("A"), s("L"), s("D"))
        .unwrap();
    reg.add_comment(dest_id.clone(), user_id.clone(), s("top"), 5u32).unwrap();
    assert_eq!(reg.get_destination(dest_id.clone()).unwrap().rating, 5u32);

    let res_id = s("res_e2e");
    reg.create_reservation(
        res_id.clone(),
        user_id,
        dest_id.clone(),
        s("2025-06-01"),
        s("2025-06-08"),
        700u64,
    )
    .unwrap();

    reg.cancel_reservation(res_id.clone()).unwrap();
    assert_eq!(reg.get_reservation_status(res_id.clone()), Some(s("cancelled")));

    // paying a cancelled reservation succeeds and does not revive it
    reg.pay_reservation(res_id.clone(), s("tx_e2e"));
    assert_eq!(reg.get_reservation_status(res_id.clone()), Some(s("cancelled")));

    // cancelling again is accepted and re-sets the same value
    reg.cancel_reservation(res_id.clone()).unwrap();
    assert_eq!(reg.get_reservation_status(res_id), Some(s("cancelled")));

    assert_eq!(reg.get_destination(dest_id).unwrap().rating, 5u32);
}
