//! Sample records of the legacy table `name`, each with the row that it
//! translates to. They serve the tests of translators.

use vstd::prelude::*;
use crate::sync::envelope::{Envelope, EnvelopeView, SyncAction};
use crate::text::text_of;

verus! {

/// The kind of a name.
#[derive(Clone, Copy, Debug, PartialEq, Eq, Hash, Structural)]
pub enum NameType {
    Facility,
    Patient,
    Build,
    Invad,
    Repack,
    Store,
    Others,
}

/// The gender of a person.
#[derive(Clone, Copy, Debug, PartialEq, Eq, Hash, Structural)]
pub enum Gender {
    Female,
    Male,
    Transgender,
    Unknown,
    NonBinary,
}

/// A calendar date.
#[derive(Clone, Copy, Debug, PartialEq, Eq, Hash, Structural)]
pub struct Date {
    pub year: i32,
    pub month: u32,
    pub day: u32,
}

/// A calendar date with a time of day, without a time zone.
#[derive(Clone, Copy, Debug, PartialEq, Eq, Hash, Structural)]
pub struct Timestamp {
    pub year: i32,
    pub month: u32,
    pub day: u32,
    pub hour: u32,
    pub minute: u32,
    pub second: u32,
}

/// A normalized name: a customer, a supplier, a store or a patient.
#[derive(Debug)]
pub struct NameRow {
    pub id: String,
    pub name: String,
    pub code: String,
    pub name_type: NameType,
    pub is_customer: bool,
    pub is_supplier: bool,
    pub supplying_store_id: Option<String>,
    pub first_name: Option<String>,
    pub last_name: Option<String>,
    pub gender: Option<Gender>,
    pub date_of_birth: Option<Date>,
    pub phone: Option<String>,
    pub charge_code: Option<String>,
    pub comment: Option<String>,
    pub country: Option<String>,
    pub address1: Option<String>,
    pub address2: Option<String>,
    pub email: Option<String>,
    pub website: Option<String>,
    pub is_manufacturer: bool,
    pub is_donor: bool,
    pub on_hold: bool,
    pub created_datetime: Option<Timestamp>,
}

/// What a sample record translates to.
#[derive(Debug)]
pub enum TestSyncDataRecord {
    Name(Option<NameRow>),
}

/// A record as the central server's buffer holds it.
#[derive(Debug)]
pub struct CentralSyncBufferRow {
    pub id: i32,
    pub table_name: String,
    pub record_id: String,
    pub data: String,
}

impl CentralSyncBufferRow {
    /// The record as an upsert for the integration driver. Its sequence is
    /// its place in the buffer; a place below zero counts as zero.
    pub fn to_envelope(&self) -> (envelope: Envelope)
        ensures
            envelope@ == (EnvelopeView {
                record_id: self.record_id@,
                table_name: self.table_name@,
                action: SyncAction::Upsert,
                sequence: if self.id < 0 {
                    0u64
                } else {
                    self.id as u64
                },
                payload: self.data@,
            }),
    {
        Envelope {
            record_id: self.record_id.clone(),
            table_name: self.table_name.clone(),
            action: SyncAction::Upsert,
            sequence: if self.id < 0 {
                0
            } else {
                self.id as u64
            },
            payload: self.data.clone(),
        }
    }
}

/// A sample record with its translation.
#[derive(Debug)]
pub struct TestSyncRecord {
    pub translated_record: TestSyncDataRecord,
    pub identifier: &'static str,
    pub central_sync_buffer_row: CentralSyncBufferRow,
}

/// The legacy table of all sample records.
pub const RECORD_TYPE: &'static str = "name";

pub const NAME_1_ID: &'static str = "1FB32324AF8049248D929CFB35F255BA";

pub const NAME_1_DATA: &'static str = r#"{
    "ID": "1FB32324AF8049248D929CFB35F255BA",
    "name": "General",
    "fax": "",
    "phone": "0123456789",
    "customer": true,
    "bill_address1": "address1",
    "bill_address2": "address2",
    "supplier": true,
    "charge code": "GEN",
    "margin": 0,
    "comment": "name comment",
    "currency_ID": "",
    "country": "name country",
    "freightfac": 0,
    "email": "name email",
    "custom1": "",
    "code": "GEN",
    "last": "last_name",
    "first": "first_name",
    "title": "",
    "female": true,
    "date_of_birth": "0000-00-00",
    "overpayment": 0,
    "group_ID": "",
    "hold": true,
    "ship_address1": "",
    "ship_address2": "",
    "url": "name website",
    "barcode": "",
    "postal_address1": "",
    "postal_address2": "",
    "category1_ID": "",
    "region_ID": "",
    "type": "patient",
    "price_category": "",
    "flag": "",
    "manufacturer": true,
    "print_invoice_alphabetical": false,
    "custom2": "",
    "custom3": "",
    "default_order_days": 0,
    "connection_type": 0,
    "PATIENT_PHOTO": "[object Picture]",
    "NEXT_OF_KIN_ID": "",
    "POBOX": "",
    "ZIP": 0,
    "middle": "",
    "preferred": false,
    "Blood_Group": "",
    "marital_status": "",
    "Benchmark": false,
    "next_of_kin_relative": "",
    "mother_id": "",
    "postal_address3": "",
    "postal_address4": "",
    "bill_address3": "",
    "bill_address4": "",
    "ship_address3": "",
    "ship_address4": "",
    "ethnicity_ID": "",
    "occupation_ID": "",
    "religion_ID": "",
    "national_health_number": "",
    "Master_RTM_Supplier_Code": 0,
    "ordering_method": "",
    "donor": false,
    "latitude": 0,
    "longitude": 0,
    "Master_RTM_Supplier_name": "",
    "category2_ID": "",
    "category3_ID": "",
    "category4_ID": "",
    "category5_ID": "",
    "category6_ID": "",
    "bill_address5": "",
    "bill_postal_zip_code": "",
    "postal_address5": "",
    "postal_zip_code": "",
    "ship_address5": "",
    "ship_postal_zip_code": "",
    "supplying_store_id": "",
    "license_number": "",
    "license_expiry": "0000-00-00",
    "has_current_license": false,
    "custom_data": null,
    "maximum_credit": 0,
    "nationality_ID": "",
    "created_date": "2022-02-10"
}"#;

pub const NAME_2_ID: &'static str = "9EDD3F83C3D64C22A3CC9C98CF4967C4";

pub const NAME_2_DATA: &'static str = r#"{
    "ID": "9EDD3F83C3D64C22A3CC9C98CF4967C4",
    "name": "Birch Store",
    "fax": "",
    "phone": "",
    "customer": true,
    "bill_address1": "234 Evil Street",
    "bill_address2": "Scotland",
    "supplier": false,
    "charge code": "SNA",
    "margin": 0,
    "comment": "",
    "currency_ID": "8009D512AC0E4FD78625E3C8273B0171",
    "country": "",
    "freightfac": 1,
    "email": "",
    "custom1": "",
    "code": "SNA",
    "last": "",
    "first": "",
    "title": "",
    "female": false,
    "date_of_birth": "0000-00-00",
    "overpayment": 0,
    "group_ID": "",
    "hold": false,
    "ship_address1": "",
    "ship_address2": "",
    "url": "",
    "barcode": "*SNA*",
    "postal_address1": "",
    "postal_address2": "",
    "category1_ID": "",
    "region_ID": "",
    "type": "facility",
    "price_category": "A",
    "flag": "",
    "manufacturer": false,
    "print_invoice_alphabetical": false,
    "custom2": "",
    "custom3": "",
    "default_order_days": 0,
    "connection_type": 0,
    "PATIENT_PHOTO": "[object Picture]",
    "NEXT_OF_KIN_ID": "",
    "POBOX": "",
    "ZIP": 0,
    "middle": "",
    "preferred": false,
    "Blood_Group": "",
    "marital_status": "",
    "Benchmark": false,
    "next_of_kin_relative": "",
    "mother_id": "",
    "postal_address3": "",
    "postal_address4": "",
    "bill_address3": "",
    "bill_address4": "",
    "ship_address3": "",
    "ship_address4": "",
    "ethnicity_ID": "",
    "occupation_ID": "",
    "religion_ID": "",
    "national_health_number": "",
    "Master_RTM_Supplier_Code": 0,
    "ordering_method": "sh",
    "donor": false,
    "latitude": 0,
    "longitude": 0,
    "Master_RTM_Supplier_name": "",
    "category2_ID": "",
    "category3_ID": "",
    "category4_ID": "",
    "category5_ID": "",
    "category6_ID": "",
    "bill_address5": "",
    "bill_postal_zip_code": "",
    "postal_address5": "",
    "postal_zip_code": "",
    "ship_address5": "",
    "ship_postal_zip_code": "",
    "supplying_store_id": "D77F67339BF8400886D009178F4962E1",
    "license_number": "",
    "license_expiry": "0000-00-00",
    "has_current_license": false,
    "custom_data": null,
    "maximum_credit": 0,
    "nationality_ID": "",
    "created_date": "0000-00-00"
}"#;

pub const NAME_3_ID: &'static str = "CB929EB86530455AB0392277FAC3DBA4";

pub const NAME_3_DATA: &'static str = r#"{
    "ID": "CB929EB86530455AB0392277FAC3DBA4",
    "name": "Birch Store 2",
    "fax": "",
    "phone": "",
    "customer": true,
    "bill_address1": "234 Evil Street",
    "bill_address2": "Scotland",
    "supplier": false,
    "charge code": "SNA",
    "margin": 0,
    "comment": "",
    "currency_ID": "8009D512AC0E4FD78625E3C8273B0171",
    "country": "",
    "freightfac": 1,
    "email": "",
    "custom1": "",
    "code": "SNA",
    "last": "",
    "first": "",
    "title": "",
    "female": false,
    "date_of_birth": "0000-00-00",
    "overpayment": 0,
    "group_ID": "",
    "hold": false,
    "ship_address1": "",
    "ship_address2": "",
    "url": "",
    "barcode": "*SNA*",
    "postal_address1": "",
    "postal_address2": "",
    "category1_ID": "",
    "region_ID": "",
    "type": "facility",
    "price_category": "A",
    "flag": "",
    "manufacturer": false,
    "print_invoice_alphabetical": false,
    "custom2": "",
    "custom3": "",
    "default_order_days": 0,
    "connection_type": 0,
    "PATIENT_PHOTO": "[object Picture]",
    "NEXT_OF_KIN_ID": "",
    "POBOX": "",
    "ZIP": 0,
    "middle": "",
    "preferred": false,
    "Blood_Group": "",
    "marital_status": "",
    "Benchmark": false,
    "next_of_kin_relative": "",
    "mother_id": "",
    "postal_address3": "",
    "postal_address4": "",
    "bill_address3": "",
    "bill_address4": "",
    "ship_address3": "",
    "ship_address4": "",
    "ethnicity_ID": "",
    "occupation_ID": "",
    "religion_ID": "",
    "national_health_number": "",
    "Master_RTM_Supplier_Code": 0,
    "ordering_method": "sh",
    "donor": false,
    "latitude": 0,
    "longitude": 0,
    "Master_RTM_Supplier_name": "",
    "category2_ID": "",
    "category3_ID": "",
    "category4_ID": "",
    "category5_ID": "",
    "category6_ID": "",
    "bill_address5": "",
    "bill_postal_zip_code": "",
    "postal_address5": "",
    "postal_zip_code": "",
    "ship_address5": "",
    "ship_postal_zip_code": "",
    "supplying_store_id": "D77F67339BF8400886D009178F4962E1",
    "license_number": "",
    "license_expiry": "0000-00-00",
    "has_current_license": false,
    "custom_data": null,
    "maximum_credit": 0,
    "nationality_ID": "",
    "created_date": "0000-00-00"
}"#;

pub const NAME_UPSERT_1_ID: &'static str = "1FB32324AF8049248D929CFB35F255BA";

pub const NAME_UPSERT_1_DATA: &'static str = r#"{
    "ID": "1FB32324AF8049248D929CFB35F255BA",
    "name": "General2",
    "fax": "",
    "phone": "",
    "customer": true,
    "bill_address1": "",
    "bill_address2": "",
    "supplier": true,
    "charge code": "GEN",
    "margin": 0,
    "comment": "",
    "currency_ID": "",
    "country": "",
    "freightfac": 0,
    "email": "",
    "custom1": "",
    "code": "GEN",
    "last": "",
    "first": "",
    "title": "",
    "female": false,
    "date_of_birth": "0000-00-00",
    "overpayment": 0,
    "group_ID": "",
    "hold": false,
    "ship_address1": "",
    "ship_address2": "",
    "url": "",
    "barcode": "",
    "postal_address1": "",
    "postal_address2": "",
    "category1_ID": "",
    "region_ID": "",
    "type": "store",
    "price_category": "",
    "flag": "",
    "manufacturer": false,
    "print_invoice_alphabetical": false,
    "custom2": "",
    "custom3": "",
    "default_order_days": 0,
    "connection_type": 0,
    "PATIENT_PHOTO": "[object Picture]",
    "NEXT_OF_KIN_ID": "",
    "POBOX": "",
    "ZIP": 0,
    "middle": "",
    "preferred": false,
    "Blood_Group": "",
    "marital_status": "",
    "Benchmark": false,
    "next_of_kin_relative": "",
    "mother_id": "",
    "postal_address3": "",
    "postal_address4": "",
    "bill_address3": "",
    "bill_address4": "",
    "ship_address3": "",
    "ship_address4": "",
    "ethnicity_ID": "",
    "occupation_ID": "",
    "religion_ID": "",
    "national_health_number": "",
    "Master_RTM_Supplier_Code": 0,
    "ordering_method": "",
    "donor": false,
    "latitude": 0,
    "longitude": 0,
    "Master_RTM_Supplier_name": "",
    "category2_ID": "",
    "category3_ID": "",
    "category4_ID": "",
    "category5_ID": "",
    "category6_ID": "",
    "bill_address5": "",
    "bill_postal_zip_code": "",
    "postal_address5": "",
    "postal_zip_code": "",
    "ship_address5": "",
    "ship_postal_zip_code": "",
    "supplying_store_id": "",
    "license_number": "",
    "license_expiry": "0000-00-00",
    "has_current_license": false,
    "custom_data": null,
    "maximum_credit": 0,
    "nationality_ID": "",
    "created_date": "0000-00-00"
}"#;

/// Whether `record` is the sample record `General` with its translation.
pub open spec fn is_name_general(record: TestSyncRecord) -> bool {
    &&& record.identifier@ == "General"@
    &&& record.central_sync_buffer_row.id == 200
    &&& record.central_sync_buffer_row.table_name@ == RECORD_TYPE@
    &&& record.central_sync_buffer_row.record_id@ == NAME_1_ID@
    &&& record.central_sync_buffer_row.data@ == NAME_1_DATA@
    &&& record.translated_record matches TestSyncDataRecord::Name(Some(row))
    &&& row.id@ == NAME_1_ID@
    &&& row.name@ == "General"@
    &&& row.code@ == "GEN"@
    &&& row.name_type == NameType::Patient
    &&& row.is_customer == true
    &&& row.is_supplier == true
    &&& text_of(row.supplying_store_id) == None::<Seq<char>>
    &&& text_of(row.first_name) == Some("first_name"@)
    &&& text_of(row.last_name) == Some("last_name"@)
    &&& text_of(row.phone) == Some("0123456789"@)
    &&& text_of(row.charge_code) == Some("GEN"@)
    &&& text_of(row.comment) == Some("name comment"@)
    &&& text_of(row.country) == Some("name country"@)
    &&& text_of(row.address1) == Some("address1"@)
    &&& text_of(row.address2) == Some("address2"@)
    &&& text_of(row.email) == Some("name email"@)
    &&& text_of(row.website) == Some("name website"@)
    &&& row.gender == Some(Gender::Female)
    &&& row.date_of_birth == None::<Date>
    &&& row.is_manufacturer == true
    &&& row.is_donor == false
    &&& row.on_hold == true
    &&& row.created_datetime == Some(Timestamp { year: 2022, month: 2, day: 10, hour: 0, minute: 0, second: 0 })
}

fn name_general() -> (record: TestSyncRecord)
    ensures
        is_name_general(record),
{
    TestSyncRecord {
        translated_record: TestSyncDataRecord::Name(
            Some(
                NameRow {
                    id: NAME_1_ID.to_owned(),
                    name: "General".to_owned(),
                    code: "GEN".to_owned(),
                    name_type: NameType::Patient,
                    is_customer: true,
                    is_supplier: true,
                    supplying_store_id: None,
                    first_name: Some("first_name".to_owned()),
                    last_name: Some("last_name".to_owned()),
                    gender: Some(Gender::Female),
                    date_of_birth: None,
                    phone: Some("0123456789".to_owned()),
                    charge_code: Some("GEN".to_owned()),
                    comment: Some("name comment".to_owned()),
                    country: Some("name country".to_owned()),
                    address1: Some("address1".to_owned()),
                    address2: Some("address2".to_owned()),
                    email: Some("name email".to_owned()),
                    website: Some("name website".to_owned()),
                    is_manufacturer: true,
                    is_donor: false,
                    on_hold: true,
                    created_datetime: Some(Timestamp { year: 2022, month: 2, day: 10, hour: 0, minute: 0, second: 0 }),
                },
            ),
        ),
        identifier: "General",
        central_sync_buffer_row: CentralSyncBufferRow {
            id: 200,
            table_name: RECORD_TYPE.to_owned(),
            record_id: NAME_1_ID.to_owned(),
            data: NAME_1_DATA.to_owned(),
        },
    }
}

/// Whether `record` is the sample record `Birch Store` with its translation.
pub open spec fn is_name_birch_store(record: TestSyncRecord) -> bool {
    &&& record.identifier@ == "Birch Store"@
    &&& record.central_sync_buffer_row.id == 201
    &&& record.central_sync_buffer_row.table_name@ == RECORD_TYPE@
    &&& record.central_sync_buffer_row.record_id@ == NAME_2_ID@
    &&& record.central_sync_buffer_row.data@ == NAME_2_DATA@
    &&& record.translated_record matches TestSyncDataRecord::Name(Some(row))
    &&& row.id@ == NAME_2_ID@
    &&& row.name@ == "Birch Store"@
    &&& row.code@ == "SNA"@
    &&& row.name_type == NameType::Facility
    &&& row.is_customer == true
    &&& row.is_supplier == false
    &&& text_of(row.supplying_store_id) == Some("D77F67339BF8400886D009178F4962E1"@)
    &&& text_of(row.first_name) == None::<Seq<char>>
    &&& text_of(row.last_name) == None::<Seq<char>>
    &&& text_of(row.phone) == None::<Seq<char>>
    &&& text_of(row.charge_code) == Some("SNA"@)
    &&& text_of(row.comment) == None::<Seq<char>>
    &&& text_of(row.country) == None::<Seq<char>>
    &&& text_of(row.address1) == Some("234 Evil Street"@)
    &&& text_of(row.address2) == Some("Scotland"@)
    &&& text_of(row.email) == None::<Seq<char>>
    &&& text_of(row.website) == None::<Seq<char>>
    &&& row.gender == None::<Gender>
    &&& row.date_of_birth == None::<Date>
    &&& row.is_manufacturer == false
    &&& row.is_donor == false
    &&& row.on_hold == false
    &&& row.created_datetime == None::<Timestamp>
}

fn name_birch_store() -> (record: TestSyncRecord)
    ensures
        is_name_birch_store(record),
{
    TestSyncRecord {
        translated_record: TestSyncDataRecord::Name(
            Some(
                NameRow {
                    id: NAME_2_ID.to_owned(),
                    name: "Birch Store".to_owned(),
                    code: "SNA".to_owned(),
                    name_type: NameType::Facility,
                    is_customer: true,
                    is_supplier: false,
                    supplying_store_id: Some("D77F67339BF8400886D009178F4962E1".to_owned()),
                    first_name: None,
                    last_name: None,
                    gender: None,
                    date_of_birth: None,
                    phone: None,
                    charge_code: Some("SNA".to_owned()),
                    comment: None,
                    country: None,
                    address1: Some("234 Evil Street".to_owned()),
                    address2: Some("Scotland".to_owned()),
                    email: None,
                    website: None,
                    is_manufacturer: false,
                    is_donor: false,
                    on_hold: false,
                    created_datetime: None,
                },
            ),
        ),
        identifier: "Birch Store",
        central_sync_buffer_row: CentralSyncBufferRow {
            id: 201,
            table_name: RECORD_TYPE.to_owned(),
            record_id: NAME_2_ID.to_owned(),
            data: NAME_2_DATA.to_owned(),
        },
    }
}

/// Whether `record` is the sample record `Birch Store 2` with its translation.
pub open spec fn is_name_birch_store_2(record: TestSyncRecord) -> bool {
    &&& record.identifier@ == "Birch Store 2"@
    &&& record.central_sync_buffer_row.id == 202
    &&& record.central_sync_buffer_row.table_name@ == RECORD_TYPE@
    &&& record.central_sync_buffer_row.record_id@ == NAME_3_ID@
    &&& record.central_sync_buffer_row.data@ == NAME_3_DATA@
    &&& record.translated_record matches TestSyncDataRecord::Name(Some(row))
    &&& row.id@ == NAME_3_ID@
    &&& row.name@ == "Birch Store 2"@
    &&& row.code@ == "SNA"@
    &&& row.name_type == NameType::Facility
    &&& row.is_customer == true
    &&& row.is_supplier == false
    &&& text_of(row.supplying_store_id) == Some("D77F67339BF8400886D009178F4962E1"@)
    &&& text_of(row.first_name) == None::<Seq<char>>
    &&& text_of(row.last_name) == None::<Seq<char>>
    &&& text_of(row.phone) == None::<Seq<char>>
    &&& text_of(row.charge_code) == Some("SNA"@)
    &&& text_of(row.comment) == None::<Seq<char>>
    &&& text_of(row.country) == None::<Seq<char>>
    &&& text_of(row.address1) == Some("234 Evil Street"@)
    &&& text_of(row.address2) == Some("Scotland"@)
    &&& text_of(row.email) == None::<Seq<char>>
    &&& text_of(row.website) == None::<Seq<char>>
    &&& row.gender == None::<Gender>
    &&& row.date_of_birth == None::<Date>
    &&& row.is_manufacturer == false
    &&& row.is_donor == false
    &&& row.on_hold == false
    &&& row.created_datetime == None::<Timestamp>
}

fn name_birch_store_2() -> (record: TestSyncRecord)
    ensures
        is_name_birch_store_2(record),
{
    TestSyncRecord {
        translated_record: TestSyncDataRecord::Name(
            Some(
                NameRow {
                    id: NAME_3_ID.to_owned(),
                    name: "Birch Store 2".to_owned(),
                    code: "SNA".to_owned(),
                    name_type: NameType::Facility,
                    is_customer: true,
                    is_supplier: false,
                    supplying_store_id: Some("D77F67339BF8400886D009178F4962E1".to_owned()),
                    first_name: None,
                    last_name: None,
                    gender: None,
                    date_of_birth: None,
                    phone: None,
                    charge_code: Some("SNA".to_owned()),
                    comment: None,
                    country: None,
                    address1: Some("234 Evil Street".to_owned()),
                    address2: Some("Scotland".to_owned()),
                    email: None,
                    website: None,
                    is_manufacturer: false,
                    is_donor: false,
                    on_hold: false,
                    created_datetime: None,
                },
            ),
        ),
        identifier: "Birch Store 2",
        central_sync_buffer_row: CentralSyncBufferRow {
            id: 202,
            table_name: RECORD_TYPE.to_owned(),
            record_id: NAME_3_ID.to_owned(),
            data: NAME_3_DATA.to_owned(),
        },
    }
}

/// Whether `record` is the sample record `General2` with its translation.
pub open spec fn is_name_general_upsert(record: TestSyncRecord) -> bool {
    &&& record.identifier@ == "General2"@
    &&& record.central_sync_buffer_row.id == 250
    &&& record.central_sync_buffer_row.table_name@ == RECORD_TYPE@
    &&& record.central_sync_buffer_row.record_id@ == NAME_UPSERT_1_ID@
    &&& record.central_sync_buffer_row.data@ == NAME_UPSERT_1_DATA@
    &&& record.translated_record matches TestSyncDataRecord::Name(Some(row))
    &&& row.id@ == NAME_UPSERT_1_ID@
    &&& row.name@ == "General2"@
    &&& row.code@ == "GEN"@
    &&& row.name_type == NameType::Store
    &&& row.is_customer == true
    &&& row.is_supplier == true
    &&& text_of(row.supplying_store_id) == None::<Seq<char>>
    &&& text_of(row.first_name) == None::<Seq<char>>
    &&& text_of(row.last_name) == None::<Seq<char>>
    &&& text_of(row.phone) == None::<Seq<char>>
    &&& text_of(row.charge_code) == Some("GEN"@)
    &&& text_of(row.comment) == None::<Seq<char>>
    &&& text_of(row.country) == None::<Seq<char>>
    &&& text_of(row.address1) == None::<Seq<char>>
    &&& text_of(row.address2) == None::<Seq<char>>
    &&& text_of(row.email) == None::<Seq<char>>
    &&& text_of(row.website) == None::<Seq<char>>
    &&& row.gender == Some(Gender::Male)
    &&& row.date_of_birth == None::<Date>
    &&& row.is_manufacturer == false
    &&& row.is_donor == false
    &&& row.on_hold == false
    &&& row.created_datetime == None::<Timestamp>
}

fn name_general_upsert() -> (record: TestSyncRecord)
    ensures
        is_name_general_upsert(record),
{
    TestSyncRecord {
        translated_record: TestSyncDataRecord::Name(
            Some(
                NameRow {
                    id: NAME_UPSERT_1_ID.to_owned(),
                    name: "General2".to_owned(),
                    code: "GEN".to_owned(),
                    name_type: NameType::Store,
                    is_customer: true,
                    is_supplier: true,
                    supplying_store_id: None,
                    first_name: None,
                    last_name: None,
                    gender: Some(Gender::Male),
                    date_of_birth: None,
                    phone: None,
                    charge_code: Some("GEN".to_owned()),
                    comment: None,
                    country: None,
                    address1: None,
                    address2: None,
                    email: None,
                    website: None,
                    is_manufacturer: false,
                    is_donor: false,
                    on_hold: false,
                    created_datetime: None,
                },
            ),
        ),
        identifier: "General2",
        central_sync_buffer_row: CentralSyncBufferRow {
            id: 250,
            table_name: RECORD_TYPE.to_owned(),
            record_id: NAME_UPSERT_1_ID.to_owned(),
            data: NAME_UPSERT_1_DATA.to_owned(),
        },
    }
}

/// The sample records of names that are pulled for the first time.
pub fn get_test_name_records() -> (records: Vec<TestSyncRecord>)
    ensures
        records.len() == 3,
        is_name_general(records[0]),
        is_name_birch_store(records[1]),
        is_name_birch_store_2(records[2]),
{
    let mut records: Vec<TestSyncRecord> = Vec::new();
    records.push(name_general());
    records.push(name_birch_store());
    records.push(name_birch_store_2());
    records
}

/// The sample records that change a name which was pulled before.
pub fn get_test_name_upsert_records() -> (records: Vec<TestSyncRecord>)
    ensures
        records.len() == 1,
        is_name_general_upsert(records[0]),
{
    let mut records: Vec<TestSyncRecord> = Vec::new();
    records.push(name_general_upsert());
    records
}

} // verus!
