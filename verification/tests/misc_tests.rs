use einsteindb::causet_def::{Causet, CausetDefinition, CausetType, LabelSet};
use einsteindb::context::{Context, DiskFullOpt};
use einsteindb::einstein_db::{
    BerolinaSqlError, BerolinaSqlErrorInfoList, BerolinaSqlErrorInfoListSerialized,
    BerolinaSqlErrorType, EinsteinDBMLVersion, EinsteinDBVersion, EinsteinDb, EinsteinDbState,
    EINSTEIN_DB_VERSION, EINSTEIN_DB_VERSION_STR_LEN,
};
use einsteindb::field_type::{
    Collation, ColumnInfo, DataTypeError, FieldType, FieldTypeAccessor, FieldTypeFlag,
    FieldTypeInfo, FieldTypeTp, BINARY, NOT_NULL, UNSIGNED,
};
use einsteindb::soliton_panic::{
    from_raw, from_raw_data, from_raw_data_with_nonce, from_raw_data_with_timestamp_and_receiver,
    from_raw_data_with_timestamp_and_receiver_and_value,
    from_raw_data_with_timestamp_and_receiver_and_value_and_gas_limit, into_raw, into_raw_data,
    into_raw_data_with_timestamp, into_raw_data_with_timestamp_and_receiver,
    into_raw_data_with_timestamp_and_value, new_data, new_data_with_timestamp, PanicBlockBody,
    PanicBlockHeaderDB, PanicLog, PanicReceipt, PanicTransaction, ParseError,
};
use einsteindb::symbols::{ns_keyword, Keyword, NamespacedSymbol, PlainSymbol};
use einsteindb::ttl::{
    expire_time_str_of, ttl_current_ts, ttl_expire_time, ttl_expire_time_at,
    ttl_expire_time_str, ttl_expire_time_str_cert, ttl_expire_time_str_relativistic,
    ttl_expire_ts, ttl_expired, ttl_expired_at, ttl_to_expire_ts, ttl_to_expire_ts_at,
};

#[test]
fn test_ns_keyword_macro() {
    assert_eq!(
        ns_keyword("test", "name").to_string(),
        Keyword::isoliton_namespaceable("test", "name").to_string()
    );
    assert_eq!(
        ns_keyword("ns", "_name").to_string(),
        Keyword::isoliton_namespaceable("ns", "_name").to_string()
    );
}

#[test]
fn plain_symbols() {
    assert_eq!("foo", PlainSymbol::plain("?foo").name());
    assert_eq!("foo", PlainSymbol::plain("$foo").name());
    assert_eq!("!foo", PlainSymbol::plain("!foo").name());
    assert_eq!("", PlainSymbol::plain("?").name());
    assert_eq!("\u{e9}t\u{e9}", PlainSymbol::plain("?\u{e9}t\u{e9}").name());
    assert!(PlainSymbol::plain("?foo").is_var_symbol());
    assert!(!PlainSymbol::plain("?foo").is_src_symbol());
    assert!(PlainSymbol::plain("$foo").is_src_symbol());
    assert!(!PlainSymbol::plain("foo?").is_var_symbol());
    assert_eq!("baz", PlainSymbol::plain("baz").to_string());
    assert_eq!(PlainSymbol::plain("baz").clone(), PlainSymbol::plain("baz"));
}

#[test]
fn keywords() {
    let bar = Keyword::plain("bar");
    let foo_bar = Keyword::isoliton_namespaceable("foo", "bar");
    assert_eq!("bar", bar.name());
    assert_eq!(None, bar.isoliton_namespaceable_fuse());
    assert_eq!("bar", foo_bar.name());
    assert_eq!(Some("foo"), foo_bar.isoliton_namespaceable_fuse());
    assert_eq!(("foo", "bar"), foo_bar.components());
    assert_eq!(("", "bar"), bar.components());
    assert!(foo_bar.is_isoliton_namespaceable());
    assert!(!bar.is_isoliton_namespaceable());

    assert!(!Keyword::isoliton_namespaceable("foo", "bar").is_spacelike_completion());
    assert!(Keyword::isoliton_namespaceable("foo", "_bar").is_spacelike_completion());
    assert!(Keyword::isoliton_namespaceable("foo", "bar").is_lightlike_curvature());
    assert!(!Keyword::isoliton_namespaceable("foo", "_bar").is_lightlike_curvature());

    let nsk = Keyword::isoliton_namespaceable("foo", "bar");
    assert_eq!(":foo/bar", nsk.to_string());
    let reversed = nsk.to_reversed();
    assert!(reversed.is_spacelike_completion());
    assert_eq!(":foo/_bar", reversed.to_string());
    assert_eq!(None, nsk.unreversed());
    assert_eq!(Some(nsk.clone()), reversed.unreversed());
    assert_eq!(nsk, reversed.to_reversed());

    assert_eq!(":baz", Keyword::plain("baz").to_string());
    assert_eq!(":bar/baz", Keyword::isoliton_namespaceable("bar", "baz").to_string());
    assert_eq!(
        ":bar/_baz",
        Keyword::isoliton_namespaceable("bar", "baz").to_reversed().to_string()
    );
    assert_eq!(
        ":bar/baz",
        Keyword::isoliton_namespaceable("bar", "baz").to_reversed().to_reversed().to_string()
    );

    let symbol = NamespacedSymbol::isoliton_namespaceable("bar", "baz");
    assert_eq!("bar/baz", symbol.to_string());
    assert_eq!("baz", symbol.name());
    assert_eq!("bar", symbol.isoliton_namespaceable_fuse());
    assert_eq!(("bar", "baz"), symbol.components());
}

#[test]
fn field_type_names() {
    assert_eq!(FieldType::TinyInt.as_str(), "tinyint");
    assert_eq!(FieldType::VarBinary.as_str(), "varbinary");
    assert_eq!(FieldType::SetType.as_str(), "set");
    assert_eq!(FieldType::Json.as_str(), "json");
    assert_eq!(FieldType::Other("Point".to_string()).as_str(), "Point");
    assert_eq!(FieldType::Other("Point".to_string()).as_str_lower(), "point");
    assert_eq!(FieldType::Other("Point".to_string()).as_str_upper(), "POINT");
    assert_eq!(FieldType::LongText.as_str_upper(), "LONGTEXT");
    assert_eq!(FieldType::LongText.as_str_lower(), "longtext");
    assert_eq!(FieldType::Blob.clone(), FieldType::Blob);
    assert_eq!(
        FieldType::Other("x".to_string()).clone(),
        FieldType::Other("x".to_string())
    );
}

#[test]
fn field_type_kinds() {
    let all = vec![
        FieldType::TinyInt, FieldType::SmallInt, FieldType::Int, FieldType::BigInt,
        FieldType::Float, FieldType::Double, FieldType::Decimal, FieldType::Date,
        FieldType::Datetime, FieldType::Timestamp, FieldType::Duration, FieldType::Year,
        FieldType::Char, FieldType::VarChar, FieldType::Binary, FieldType::VarBinary,
        FieldType::TinyBlob, FieldType::Blob, FieldType::MediumBlob, FieldType::LongBlob,
        FieldType::TinyText, FieldType::Text, FieldType::MediumText, FieldType::LongText,
        FieldType::Enum, FieldType::SetType, FieldType::Bit, FieldType::Geometry,
        FieldType::Json, FieldType::Other("other".to_string()),
    ];
    let names = |pred: fn(&FieldType) -> bool| -> Vec<String> {
        all.iter().filter(|t| pred(t)).map(|t| t.as_str().to_string()).collect()
    };
    assert_eq!(names(FieldType::is_string), ["char", "varchar", "tinytext", "text", "mediumtext"]);
    assert_eq!(
        names(FieldType::is_binary),
        ["binary", "varbinary", "tinyblob", "blob", "mediumblob", "longblob"]
    );
    assert_eq!(names(FieldType::is_blob), ["tinyblob", "blob", "mediumblob", "longblob"]);
    assert_eq!(names(FieldType::is_text), ["tinytext", "text", "mediumtext", "longtext"]);
    assert_eq!(
        names(FieldType::is_numeric),
        ["tinyint", "smallint", "int", "bigint", "float", "double", "decimal"]
    );
    assert_eq!(names(FieldType::is_integer), ["tinyint", "smallint", "int", "bigint"]);
    assert_eq!(names(FieldType::is_unsigned), ["tinyint"]);
    assert_eq!(names(FieldType::is_float), ["float", "double", "decimal"]);
    assert_eq!(names(FieldType::is_decimal), ["decimal"]);
}

#[test]
fn field_type_codes() {
    assert_eq!(FieldTypeTp::from_i32(0), Some(FieldTypeTp::Unspecified));
    assert_eq!(FieldTypeTp::from_i32(16), Some(FieldTypeTp::Bit));
    assert_eq!(FieldTypeTp::from_i32(17), None);
    assert_eq!(FieldTypeTp::from_i32(-1), None);
    assert_eq!(FieldTypeTp::from_i32(0xf4), None);
    assert_eq!(FieldTypeTp::from_i32(0xf5), Some(FieldTypeTp::JSON));
    assert_eq!(FieldTypeTp::from_i32(0xf8), Some(FieldTypeTp::SetType));
    assert_eq!(FieldTypeTp::from_i32(0xff), Some(FieldTypeTp::Geometry));
    assert_eq!(FieldTypeTp::from_i32(0x100), None);
    assert_eq!(FieldTypeTp::from_u8(15), Some(FieldTypeTp::VarChar));
    assert_eq!(FieldTypeTp::from_u8(100), None);
    assert_eq!(FieldTypeTp::from_u8(0xfe), Some(FieldTypeTp::String));
    assert_eq!(FieldTypeTp::NewDecimal.to_u8(), Some(0xf6));
    assert_eq!(FieldTypeTp::LongLong.to_i32(), 8);
    for code in 0..=255u8 {
        if let Some(tp) = FieldTypeTp::from_u8(code) {
            assert_eq!(tp.to_u8(), Some(code));
        } else {
            assert!(code > 16 && code < 0xf5);
        }
    }
}

#[test]
fn collations() {
    assert_eq!(Collation::from_i32(-33), Ok(Collation::Utf8Mb4GeneralCi));
    assert_eq!(Collation::from_i32(-45), Ok(Collation::Utf8Mb4GeneralCi));
    for n in [-46, -83, -65, -47] {
        assert_eq!(Collation::from_i32(n), Ok(Collation::Utf8Mb4Bin));
    }
    assert_eq!(Collation::from_i32(-63), Ok(Collation::Binary));
    assert_eq!(Collation::from_i32(63), Ok(Collation::Binary));
    assert_eq!(Collation::from_i32(0), Ok(Collation::Utf8Mb4BinNoPadding));
    assert_eq!(Collation::from_i32(46), Ok(Collation::Utf8Mb4BinNoPadding));
    assert_eq!(Collation::from_i32(i32::MAX), Ok(Collation::Utf8Mb4BinNoPadding));
    assert_eq!(
        Collation::from_i32(-1),
        Err(DataTypeError::UnsupportedCollation { code: -1 })
    );
    assert_eq!(
        Collation::from_i32(i32::MIN),
        Err(DataTypeError::UnsupportedCollation { code: i32::MIN })
    );
    for c in [
        Collation::Binary,
        Collation::Utf8Mb4Bin,
        Collation::Utf8Mb4BinNoPadding,
        Collation::Utf8Mb4GeneralCi,
    ] {
        assert_eq!(Collation::from_i32(c.to_i32()), Ok(c));
    }
    assert_eq!(Collation::Utf8Mb4Bin.to_i32(), -46);
}

#[test]
fn field_type_accessor() {
    let mut ft = FieldTypeInfo::from_tp(FieldTypeTp::Blob);
    assert_eq!(ft.tp(), FieldTypeTp::Blob);
    assert!(ft.is_blob_like() && ft.is_string_like());
    assert!(!ft.is_hybrid() && !ft.is_char_like() && !ft.is_varchar_like());
    // Collation 0 is the binary comparison without padding.
    assert!(ft.is_non_binary_string_like() && !ft.is_binary_string_like());
    ft.set_collation(Collation::Binary);
    assert_eq!(ft.collation(), Ok(Collation::Binary));
    assert!(ft.is_binary_string_like() && !ft.is_non_binary_string_like());
    ft.collate = -2;
    assert_eq!(ft.collation(), Err(DataTypeError::UnsupportedCollation { code: -2 }));
    assert!(ft.is_non_binary_string_like());
    ft.set_tp(FieldTypeTp::Enum);
    assert!(ft.is_hybrid() && !ft.is_string_like() && !ft.is_non_binary_string_like());
    ft.tp = 99;
    assert_eq!(ft.tp(), FieldTypeTp::Unspecified);
    assert!(ft.is_string_like());
    ft.set_tp(FieldTypeTp::VarChar);
    assert!(ft.is_char_like() && ft.is_varchar_like());
    ft.set_tp(FieldTypeTp::String);
    assert!(ft.is_char_like() && !ft.is_varchar_like());

    assert!(!ft.is_unsigned());
    ft.set_flag(FieldTypeFlag::from_bits_truncate(UNSIGNED | NOT_NULL));
    assert!(ft.is_unsigned());
    assert_eq!(ft.flag().bits(), 33);
    assert!(ft.flag().contains(FieldTypeFlag::from_bits_truncate(NOT_NULL)));
    assert!(!ft.flag().contains(FieldTypeFlag::from_bits_truncate(BINARY)));
    assert_eq!(FieldTypeFlag::from_bits_truncate(u32::MAX).bits(), 786593);
    assert_eq!(FieldTypeFlag::from_bits_truncate(2).bits(), 0);

    ft.set_flen(-1);
    assert_eq!(ft.flen(), -1);
    ft.set_decimal(30);
    assert_eq!(ft.decimal(), 30);
    assert_eq!(ft.flen, -1);

    let mut ci = ColumnInfo::from_tp(FieldTypeTp::LongLong);
    assert_eq!(ci.tp(), FieldTypeTp::LongLong);
    ci.set_flag(FieldTypeFlag::from_bits_truncate(UNSIGNED));
    assert_eq!(ci.flag, 32);
    assert!(ci.is_unsigned());
    ci.set_flen(11);
    ci.set_decimal(2);
    ci.set_collation(Collation::Utf8Mb4GeneralCi);
    assert_eq!((ci.flen(), ci.decimal(), ci.collation), (11, 2, -45));
    assert_eq!(ci.column_len, 11);
    assert_eq!(ColumnInfo::new().tp(), FieldTypeTp::Unspecified);
    assert_eq!(FieldTypeInfo::new().flag().bits(), 0);
}

#[test]
fn times_to_live() {
    assert_eq!(ttl_to_expire_ts_at(0, 100), None);
    assert_eq!(ttl_to_expire_ts_at(10, 100), Some(110));
    assert_eq!(ttl_to_expire_ts_at(u64::MAX, 100), Some(u64::MAX));
    assert!(!ttl_expired_at(0, 100, u64::MAX));
    assert!(!ttl_expired_at(10, 100, 109));
    assert!(ttl_expired_at(10, 100, 110));
    assert!(ttl_expired_at(10, 100, 111));
    assert_eq!(ttl_expire_time_at(0, 100, 100), None);
    assert_eq!(ttl_expire_time_at(10, 100, 104), Some(6));
    assert_eq!(ttl_expire_time_at(10, 100, 110), Some(0));
    assert_eq!(ttl_expire_time_at(10, 100, 111), Some(u64::MAX));
    assert_eq!(expire_time_str_of(None), "");
    assert_eq!(expire_time_str_of(Some(0)), "0s");
    assert_eq!(expire_time_str_of(Some(6)), "6s");
    assert_eq!(expire_time_str_of(Some(1234567890)), "1234567890s");
    assert_eq!(expire_time_str_of(Some(i64::MAX as u64)), "9223372036854775807s");
    assert_eq!(expire_time_str_of(Some(i64::MAX as u64 + 1)), "expired");
    assert_eq!(expire_time_str_of(Some(u64::MAX)), "expired");

    // By the clock of the machine.
    let before = ttl_current_ts();
    assert!(before > 1_600_000_000);
    assert_eq!(ttl_to_expire_ts(0), None);
    assert_eq!(ttl_expire_ts(0), 0);
    let ts = ttl_to_expire_ts(1000).unwrap();
    assert!(ts >= before + 1000 && ts <= ttl_current_ts() + 1000);
    assert!(ttl_expire_ts(1000) >= ts);
    assert!(!ttl_expired(0));
    assert!(!ttl_expired(1000));
    assert_eq!(ttl_expire_time(0), None);
    let left = ttl_expire_time(1000).unwrap();
    assert!(left <= 1000 && left >= 990);
    assert_eq!(ttl_expire_time_str(0), "");
    assert_eq!(ttl_expire_time_str_relativistic(0), "");
    assert_eq!(ttl_expire_time_str_cert(0), "");
    for shown in [
        ttl_expire_time_str(1000),
        ttl_expire_time_str_relativistic(1000),
        ttl_expire_time_str_cert(1000),
    ] {
        assert!(shown == "1000s" || shown == "999s" || shown == "998s", "{}", shown);
    }
}

#[test]
fn label_sets() {
    let pair = |k: &str, v: &str| (k.to_string(), v.to_string());
    let mut set = LabelSet::new();
    assert!(set.labels().is_empty());
    assert_eq!(set.get("job"), None);
    set.insert("job".to_string(), "db".to_string());
    set.insert("instance".to_string(), "a:1".to_string());
    set.insert("zone".to_string(), "z".to_string());
    set.insert("job".to_string(), "kv".to_string());
    assert_eq!(
        set.labels(),
        &vec![pair("instance", "a:1"), pair("job", "kv"), pair("zone", "z")]
    );
    assert_eq!(set.get("job"), Some(&"kv".to_string()));
    assert_eq!(set.get("jo"), None);
    assert_eq!(set.get_label("zone"), Some("z".to_string()));
    assert_eq!(set.get_label_mut("instance"), Some("a:1".to_string()));
    assert_eq!(set.get_label_mut("none"), None);

    let pairs = vec![pair("b", "1"), pair("a", "2"), pair("b", "3"), pair("", "4")];
    let expected = vec![pair("", "4"), pair("a", "2"), pair("b", "3")];
    assert_eq!(LabelSet::from_pairs(pairs.clone()).labels(), &expected);
    assert_eq!(LabelSet::from_labels(pairs.clone()).labels(), &expected);
    assert_eq!(LabelSet::from_labels_vec(pairs.clone()), LabelSet::from_pairs(pairs));
    assert_eq!(LabelSet::from_pairs(vec![]), LabelSet::new());
    // The names are in the order of their bytes.
    let set = LabelSet::from_pairs(vec![pair("\u{e9}", "1"), pair("z", "2"), pair("Z", "3")]);
    assert_eq!(set.labels(), &vec![pair("Z", "3"), pair("z", "2"), pair("\u{e9}", "1")]);
}

#[test]
fn causet_definitions() {
    let def = CausetDefinition::new(
        7,
        CausetType::Causet,
        "people".to_string(),
        ":person".to_string(),
        vec![("name".to_string(), "string".to_string())],
    );
    assert_eq!(def.causet_id, 7);
    assert_eq!(def.causet_type, CausetType::Causet);
    assert_eq!(def.get_name(), "people");
    assert_eq!(def.get_keyword(), ":person");
    assert_eq!(def.get_attributes().len(), 1);
    assert_ne!(Causet::Unknown, Causet::Causet);
    assert_ne!(CausetType::Unknown, CausetType::Causet);
}

#[test]
fn database_state() {
    let mut db = EinsteinDb::new();
    assert_eq!(db.get_version(), 0x0101);
    assert_eq!(db.get_version(), EINSTEIN_DB_VERSION);
    assert_eq!(db.get_version_str(), "0.1.1");
    assert_eq!(db.get_version_str_len(), EINSTEIN_DB_VERSION_STR_LEN);
    assert_eq!(db.einstein_db_state, EinsteinDbState::Init);
    assert_eq!(db.einstein_db_state_str, "Init");
    assert_eq!(db.einstein_ml_version, "257");
    assert_eq!(db.einstein_ml_version_str, "0.1.1");
    assert_eq!(db.einstein_db_version, "0.1.1");
    assert!(!db.is_running());
    db.start();
    assert!(db.is_running());
    assert_eq!(db.einstein_db_state_str, "Running");
    db.stop();
    assert!(!db.is_running());
    assert_eq!(db.einstein_db_state, EinsteinDbState::Stopped);
    assert_eq!(db.einstein_db_state_str, "Stopped");
    assert_eq!(db.get_version_str(), "0.1.1");
    assert!(EinsteinDbState::Running.is_running());
    assert!(!EinsteinDbState::Init.is_running());

    let v = EinsteinDBVersion::new(3, "0.0.3".to_string());
    assert_eq!((v.version, v.version_str.as_str()), (3, "0.0.3"));
    let v = EinsteinDBMLVersion::new(4, "0.0.4".to_string());
    assert_eq!((v.version, v.version_str.as_str()), (4, "0.0.4"));
    assert!(BerolinaSqlErrorInfoList::new().error_info_list.is_empty());
    assert!(BerolinaSqlErrorInfoListSerialized::new().error_info_list.is_empty());
    let e = BerolinaSqlError::new(BerolinaSqlErrorType::SqlError, "near SELECT".to_string());
    assert_eq!(e, BerolinaSqlError::SqlError("near SELECT".to_string()));
    assert_eq!(e.error_type(), BerolinaSqlErrorType::SqlError);
    let e = BerolinaSqlError::new(BerolinaSqlErrorType::IoError, "closed".to_string());
    assert_eq!(e, BerolinaSqlError::IoError("closed".to_string()));
    assert_eq!(e.error_type(), BerolinaSqlErrorType::IoError);
}

#[test]
fn contexts() {
    let mut ctx = Context::default();
    assert_eq!(ctx, Context::new());
    assert_eq!(
        (ctx.get_region_id(), ctx.get_term(), ctx.get_version(), ctx.get_not_fill_cache()),
        (0, 0, 0, false)
    );
    assert_eq!(ctx.get_disk_full_opt(), DiskFullOpt::NotAllowedOnFull);
    assert!(!ctx.is_retry_request);
    ctx.set_is_retry_request(true);
    assert!(ctx.is_retry_request);
    assert_eq!(ctx.term, 0);
}

#[test]
fn skeleton_records() {
    let field = |fill: u8| {
        let mut f = [0u8; 32];
        for (i, b) in f.iter_mut().enumerate() {
            *b = fill.wrapping_add(i as u8);
        }
        f
    };
    let t = PanicTransaction::new(1, 0x0102, u64::MAX, field(1), field(2), field(3), field(4));
    let bytes = t.to_bytes();
    assert_eq!(bytes.len(), 152);
    assert_eq!(&bytes[..8], &[1, 0, 0, 0, 0, 0, 0, 0]);
    assert_eq!(&bytes[8..16], &[2, 1, 0, 0, 0, 0, 0, 0]);
    assert_eq!(&bytes[16..24], &[0xFF; 8]);
    assert_eq!(&bytes[24..56], &field(1));
    assert_eq!(&bytes[120..], &field(4));
    assert_eq!(PanicTransaction::new_from_bytes(&bytes), Ok(t));
    assert_eq!(PanicTransaction::new_from_bytes(&bytes[..151]), Err(ParseError::UnexpectedEof));
    let mut longer = bytes.clone();
    longer.push(9);
    assert_eq!(PanicTransaction::new_from_bytes(&longer), Ok(t));
    let blank = |nonce: u64, gas_limit: u64| {
        PanicTransaction::new(nonce, 0, gas_limit, [0; 32], [0; 32], [0; 32], [0; 32])
    };
    let to = || "receiver".to_string();
    assert_eq!(from_raw_data(to()), blank(0, 0));
    assert_eq!(from_raw_data_with_nonce(5, to()), blank(5, 0));
    assert_eq!(from_raw_data_with_timestamp_and_receiver(1, to(), 2, 3), blank(0, 0));
    assert_eq!(from_raw_data_with_timestamp_and_receiver_and_value(1, to(), 2, 3), blank(0, 0));
    assert_eq!(
        from_raw_data_with_timestamp_and_receiver_and_value_and_gas_limit(1, to(), 2, 3, 9),
        blank(0, 9)
    );
    assert_eq!(einsteindb::soliton_panic::new(1, to(), 2, 3), blank(0, 0));
    assert_eq!(new_data(1, to(), 2), blank(0, 0));
    assert_eq!(new_data_with_timestamp(1, to(), 2, 3), blank(0, 0));
    assert_eq!(into_raw(t), t);
    assert_eq!(into_raw_data(t), t);
    assert_eq!(into_raw_data_with_timestamp(t), t);
    assert_eq!(into_raw_data_with_timestamp_and_value(t), t);
    assert_eq!(into_raw_data_with_timestamp_and_receiver(t), t);
    let transfer = from_raw(1, to(), 2, 3);
    assert_eq!(
        (transfer.sender, transfer.receiver.as_str(), transfer.value, transfer.timestamp),
        (1, "receiver", 2, 3)
    );

    let r = PanicReceipt::new(field(1), 77, field(2), field(3), field(4), field(5), field(6));
    let bytes = r.to_bytes();
    assert_eq!(bytes.len(), 200);
    assert_eq!(&bytes[..32], &field(1));
    assert_eq!(&bytes[32..40], &[77, 0, 0, 0, 0, 0, 0, 0]);
    assert_eq!(&bytes[168..], &field(6));
    assert_eq!(PanicReceipt::new_from_bytes(&bytes), Ok(r));
    assert_eq!(PanicReceipt::new_from_bytes(&[]), Err(ParseError::UnexpectedEof));

    let l = PanicLog::new(field(1), field(2), field(3), field(4));
    let bytes = l.to_bytes();
    assert_eq!(bytes.len(), 128);
    assert_eq!(&bytes[32..64], &field(2));
    assert_eq!(PanicLog::new_from_bytes(&bytes), Ok(l));
    assert_eq!(PanicLog::new_from_bytes(&bytes[1..]), Err(ParseError::UnexpectedEof));

    assert_eq!(PanicBlockBody::new(vec!["tx".to_string()]).transactions, vec!["tx".to_string()]);
    let h = PanicBlockHeaderDB::new(3, "parent".to_string(), 9);
    assert_eq!((h.number, h.parent_hash.as_str(), h.timestamp), (3, "parent", 9));
}
