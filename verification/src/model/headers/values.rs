//! One type for the value of each header that the library knows by name, one
//! for the headers that it does not, and the union of them all.
use super::{
    header_line, spec_value_from_text, AckType, HeaderModel, HeaderType, HeaderValue,
    HeartBeatIntervalls, StompVersion, StompVersions, ValueModel,
};
use crate::error::{ErrorKind, Failure, StompParseError};
use crate::text::{decimal_string, parse_u32};
use vstd::prelude::*;
use vstd::utf8::*;

verus! {

/// The value of an `ack` header: the acknowledgement mode.
#[derive(Debug, Clone, PartialEq, Eq)]
pub struct AckValue {
    pub value: AckType,
}

impl View for AckValue {
    type V = ValueModel;

    open spec fn view(&self) -> ValueModel {
        ValueModel::Ack(self.value)
    }
}

impl AckValue {
    pub fn new(value: AckType) -> (r: AckValue)
        ensures
            r.value == value,
    {
        AckValue { value }
    }
}

impl HeaderValue<AckType> for AckValue {
    open spec fn spec_header_name(&self) -> Seq<u8> {
        HeaderType::Ack.spec_name_bytes()
    }

    open spec fn spec_value_text(&self) -> Seq<u8> {
        self@.spec_text()
    }

    open spec fn spec_value(&self) -> AckType {
        self.value
    }

    open spec fn spec_header_type(&self) -> Option<HeaderType> {
        Some(HeaderType::Ack)
    }

    fn header_type(&self) -> (header: Option<HeaderType>) {
        Some(HeaderType::Ack)
    }

    fn header_name(&self) -> (name: &str) {
        HeaderType::Ack.name()
    }

    fn value(&self) -> (value: &AckType) {
        &self.value
    }

    fn to_string(&self) -> (line: String) {
        let text = self.value.to_string();
        header_line(HeaderType::Ack.name(), text.as_str())
    }
}

/// The value of an `accept-version` header: the list of versions.
#[derive(Debug, Clone, PartialEq, Eq)]
pub struct AcceptVersionValue {
    pub value: StompVersions,
}

impl View for AcceptVersionValue {
    type V = ValueModel;

    open spec fn view(&self) -> ValueModel {
        ValueModel::Versions(self.value@)
    }
}

impl AcceptVersionValue {
    pub fn new(value: StompVersions) -> (r: AcceptVersionValue)
        ensures
            r.value == value,
    {
        AcceptVersionValue { value }
    }
}

impl HeaderValue<StompVersions> for AcceptVersionValue {
    open spec fn spec_header_name(&self) -> Seq<u8> {
        HeaderType::AcceptVersion.spec_name_bytes()
    }

    open spec fn spec_value_text(&self) -> Seq<u8> {
        self@.spec_text()
    }

    open spec fn spec_value(&self) -> StompVersions {
        self.value
    }

    open spec fn spec_header_type(&self) -> Option<HeaderType> {
        Some(HeaderType::AcceptVersion)
    }

    fn header_type(&self) -> (header: Option<HeaderType>) {
        Some(HeaderType::AcceptVersion)
    }

    fn header_name(&self) -> (name: &str) {
        HeaderType::AcceptVersion.name()
    }

    fn value(&self) -> (value: &StompVersions) {
        &self.value
    }

    fn to_string(&self) -> (line: String) {
        let text = self.value.to_string();
        header_line(HeaderType::AcceptVersion.name(), text.as_str())
    }
}

/// The value of a `content-length` header: the length of the body in bytes.
#[derive(Debug, Clone, PartialEq, Eq)]
pub struct ContentLengthValue {
    pub value: u32,
}

impl View for ContentLengthValue {
    type V = ValueModel;

    open spec fn view(&self) -> ValueModel {
        ValueModel::Length(self.value)
    }
}

impl ContentLengthValue {
    pub fn new(value: u32) -> (r: ContentLengthValue)
        ensures
            r.value == value,
    {
        ContentLengthValue { value }
    }
}

impl HeaderValue<u32> for ContentLengthValue {
    open spec fn spec_header_name(&self) -> Seq<u8> {
        HeaderType::ContentLength.spec_name_bytes()
    }

    open spec fn spec_value_text(&self) -> Seq<u8> {
        self@.spec_text()
    }

    open spec fn spec_value(&self) -> u32 {
        self.value
    }

    open spec fn spec_header_type(&self) -> Option<HeaderType> {
        Some(HeaderType::ContentLength)
    }

    fn header_type(&self) -> (header: Option<HeaderType>) {
        Some(HeaderType::ContentLength)
    }

    fn header_name(&self) -> (name: &str) {
        HeaderType::ContentLength.name()
    }

    fn value(&self) -> (value: &u32) {
        &self.value
    }

    fn to_string(&self) -> (line: String) {
        let text = decimal_string(self.value);
        header_line(HeaderType::ContentLength.name(), text.as_str())
    }
}

/// The value of a `content-type` header.
#[derive(Debug, Clone, PartialEq, Eq)]
pub struct ContentTypeValue {
    pub value: String,
}

impl View for ContentTypeValue {
    type V = ValueModel;

    open spec fn view(&self) -> ValueModel {
        ValueModel::Text(encode_utf8(self.value@))
    }
}

impl ContentTypeValue {
    pub fn new(value: String) -> (r: ContentTypeValue)
        ensures
            r.value == value,
    {
        ContentTypeValue { value }
    }
}

impl HeaderValue<String> for ContentTypeValue {
    open spec fn spec_header_name(&self) -> Seq<u8> {
        HeaderType::ContentType.spec_name_bytes()
    }

    open spec fn spec_value_text(&self) -> Seq<u8> {
        self@.spec_text()
    }

    open spec fn spec_value(&self) -> String {
        self.value
    }

    open spec fn spec_header_type(&self) -> Option<HeaderType> {
        Some(HeaderType::ContentType)
    }

    fn header_type(&self) -> (header: Option<HeaderType>) {
        Some(HeaderType::ContentType)
    }

    fn header_name(&self) -> (name: &str) {
        HeaderType::ContentType.name()
    }

    fn value(&self) -> (value: &String) {
        &self.value
    }

    fn to_string(&self) -> (line: String) {
        header_line(HeaderType::ContentType.name(), self.value.as_str())
    }
}

/// The value of a `destination` header.
#[derive(Debug, Clone, PartialEq, Eq)]
pub struct DestinationValue {
    pub value: String,
}

impl View for DestinationValue {
    type V = ValueModel;

    open spec fn view(&self) -> ValueModel {
        ValueModel::Text(encode_utf8(self.value@))
    }
}

impl DestinationValue {
    pub fn new(value: String) -> (r: DestinationValue)
        ensures
            r.value == value,
    {
        DestinationValue { value }
    }
}

impl HeaderValue<String> for DestinationValue {
    open spec fn spec_header_name(&self) -> Seq<u8> {
        HeaderType::Destination.spec_name_bytes()
    }

    open spec fn spec_value_text(&self) -> Seq<u8> {
        self@.spec_text()
    }

    open spec fn spec_value(&self) -> String {
        self.value
    }

    open spec fn spec_header_type(&self) -> Option<HeaderType> {
        Some(HeaderType::Destination)
    }

    fn header_type(&self) -> (header: Option<HeaderType>) {
        Some(HeaderType::Destination)
    }

    fn header_name(&self) -> (name: &str) {
        HeaderType::Destination.name()
    }

    fn value(&self) -> (value: &String) {
        &self.value
    }

    fn to_string(&self) -> (line: String) {
        header_line(HeaderType::Destination.name(), self.value.as_str())
    }
}

/// The value of a `heart-beat` header: the heartbeat intervals.
#[derive(Debug, Clone, PartialEq, Eq)]
pub struct HeartBeatValue {
    pub value: HeartBeatIntervalls,
}

impl View for HeartBeatValue {
    type V = ValueModel;

    open spec fn view(&self) -> ValueModel {
        ValueModel::HeartBeat(self.value)
    }
}

impl HeartBeatValue {
    pub fn new(value: HeartBeatIntervalls) -> (r: HeartBeatValue)
        ensures
            r.value == value,
    {
        HeartBeatValue { value }
    }
}

impl HeaderValue<HeartBeatIntervalls> for HeartBeatValue {
    open spec fn spec_header_name(&self) -> Seq<u8> {
        HeaderType::HeartBeat.spec_name_bytes()
    }

    open spec fn spec_value_text(&self) -> Seq<u8> {
        self@.spec_text()
    }

    open spec fn spec_value(&self) -> HeartBeatIntervalls {
        self.value
    }

    open spec fn spec_header_type(&self) -> Option<HeaderType> {
        Some(HeaderType::HeartBeat)
    }

    fn header_type(&self) -> (header: Option<HeaderType>) {
        Some(HeaderType::HeartBeat)
    }

    fn header_name(&self) -> (name: &str) {
        HeaderType::HeartBeat.name()
    }

    fn value(&self) -> (value: &HeartBeatIntervalls) {
        &self.value
    }

    fn to_string(&self) -> (line: String) {
        let text = self.value.to_string();
        header_line(HeaderType::HeartBeat.name(), text.as_str())
    }
}

/// The value of a `host` header.
#[derive(Debug, Clone, PartialEq, Eq)]
pub struct HostValue {
    pub value: String,
}

impl View for HostValue {
    type V = ValueModel;

    open spec fn view(&self) -> ValueModel {
        ValueModel::Text(encode_utf8(self.value@))
    }
}

impl HostValue {
    pub fn new(value: String) -> (r: HostValue)
        ensures
            r.value == value,
    {
        HostValue { value }
    }
}

impl HeaderValue<String> for HostValue {
    open spec fn spec_header_name(&self) -> Seq<u8> {
        HeaderType::Host.spec_name_bytes()
    }

    open spec fn spec_value_text(&self) -> Seq<u8> {
        self@.spec_text()
    }

    open spec fn spec_value(&self) -> String {
        self.value
    }

    open spec fn spec_header_type(&self) -> Option<HeaderType> {
        Some(HeaderType::Host)
    }

    fn header_type(&self) -> (header: Option<HeaderType>) {
        Some(HeaderType::Host)
    }

    fn header_name(&self) -> (name: &str) {
        HeaderType::Host.name()
    }

    fn value(&self) -> (value: &String) {
        &self.value
    }

    fn to_string(&self) -> (line: String) {
        header_line(HeaderType::Host.name(), self.value.as_str())
    }
}

/// The value of an `id` header.
#[derive(Debug, Clone, PartialEq, Eq)]
pub struct IdValue {
    pub value: String,
}

impl View for IdValue {
    type V = ValueModel;

    open spec fn view(&self) -> ValueModel {
        ValueModel::Text(encode_utf8(self.value@))
    }
}

impl IdValue {
    pub fn new(value: String) -> (r: IdValue)
        ensures
            r.value == value,
    {
        IdValue { value }
    }
}

impl HeaderValue<String> for IdValue {
    open spec fn spec_header_name(&self) -> Seq<u8> {
        HeaderType::Id.spec_name_bytes()
    }

    open spec fn spec_value_text(&self) -> Seq<u8> {
        self@.spec_text()
    }

    open spec fn spec_value(&self) -> String {
        self.value
    }

    open spec fn spec_header_type(&self) -> Option<HeaderType> {
        Some(HeaderType::Id)
    }

    fn header_type(&self) -> (header: Option<HeaderType>) {
        Some(HeaderType::Id)
    }

    fn header_name(&self) -> (name: &str) {
        HeaderType::Id.name()
    }

    fn value(&self) -> (value: &String) {
        &self.value
    }

    fn to_string(&self) -> (line: String) {
        header_line(HeaderType::Id.name(), self.value.as_str())
    }
}

/// The value of a `login` header.
#[derive(Debug, Clone, PartialEq, Eq)]
pub struct LoginValue {
    pub value: String,
}

impl View for LoginValue {
    type V = ValueModel;

    open spec fn view(&self) -> ValueModel {
        ValueModel::Text(encode_utf8(self.value@))
    }
}

impl LoginValue {
    pub fn new(value: String) -> (r: LoginValue)
        ensures
            r.value == value,
    {
        LoginValue { value }
    }
}

impl HeaderValue<String> for LoginValue {
    open spec fn spec_header_name(&self) -> Seq<u8> {
        HeaderType::Login.spec_name_bytes()
    }

    open spec fn spec_value_text(&self) -> Seq<u8> {
        self@.spec_text()
    }

    open spec fn spec_value(&self) -> String {
        self.value
    }

    open spec fn spec_header_type(&self) -> Option<HeaderType> {
        Some(HeaderType::Login)
    }

    fn header_type(&self) -> (header: Option<HeaderType>) {
        Some(HeaderType::Login)
    }

    fn header_name(&self) -> (name: &str) {
        HeaderType::Login.name()
    }

    fn value(&self) -> (value: &String) {
        &self.value
    }

    fn to_string(&self) -> (line: String) {
        header_line(HeaderType::Login.name(), self.value.as_str())
    }
}

/// The value of a `message` header.
#[derive(Debug, Clone, PartialEq, Eq)]
pub struct MessageValue {
    pub value: String,
}

impl View for MessageValue {
    type V = ValueModel;

    open spec fn view(&self) -> ValueModel {
        ValueModel::Text(encode_utf8(self.value@))
    }
}

impl MessageValue {
    pub fn new(value: String) -> (r: MessageValue)
        ensures
            r.value == value,
    {
        MessageValue { value }
    }
}

impl HeaderValue<String> for MessageValue {
    open spec fn spec_header_name(&self) -> Seq<u8> {
        HeaderType::Message.spec_name_bytes()
    }

    open spec fn spec_value_text(&self) -> Seq<u8> {
        self@.spec_text()
    }

    open spec fn spec_value(&self) -> String {
        self.value
    }

    open spec fn spec_header_type(&self) -> Option<HeaderType> {
        Some(HeaderType::Message)
    }

    fn header_type(&self) -> (header: Option<HeaderType>) {
        Some(HeaderType::Message)
    }

    fn header_name(&self) -> (name: &str) {
        HeaderType::Message.name()
    }

    fn value(&self) -> (value: &String) {
        &self.value
    }

    fn to_string(&self) -> (line: String) {
        header_line(HeaderType::Message.name(), self.value.as_str())
    }
}

/// The value of a `message-id` header.
#[derive(Debug, Clone, PartialEq, Eq)]
pub struct MessageIdValue {
    pub value: String,
}

impl View for MessageIdValue {
    type V = ValueModel;

    open spec fn view(&self) -> ValueModel {
        ValueModel::Text(encode_utf8(self.value@))
    }
}

impl MessageIdValue {
    pub fn new(value: String) -> (r: MessageIdValue)
        ensures
            r.value == value,
    {
        MessageIdValue { value }
    }
}

impl HeaderValue<String> for MessageIdValue {
    open spec fn spec_header_name(&self) -> Seq<u8> {
        HeaderType::MessageId.spec_name_bytes()
    }

    open spec fn spec_value_text(&self) -> Seq<u8> {
        self@.spec_text()
    }

    open spec fn spec_value(&self) -> String {
        self.value
    }

    open spec fn spec_header_type(&self) -> Option<HeaderType> {
        Some(HeaderType::MessageId)
    }

    fn header_type(&self) -> (header: Option<HeaderType>) {
        Some(HeaderType::MessageId)
    }

    fn header_name(&self) -> (name: &str) {
        HeaderType::MessageId.name()
    }

    fn value(&self) -> (value: &String) {
        &self.value
    }

    fn to_string(&self) -> (line: String) {
        header_line(HeaderType::MessageId.name(), self.value.as_str())
    }
}

/// The value of a `passcode` header.
#[derive(Debug, Clone, PartialEq, Eq)]
pub struct PasscodeValue {
    pub value: String,
}

impl View for PasscodeValue {
    type V = ValueModel;

    open spec fn view(&self) -> ValueModel {
        ValueModel::Text(encode_utf8(self.value@))
    }
}

impl PasscodeValue {
    pub fn new(value: String) -> (r: PasscodeValue)
        ensures
            r.value == value,
    {
        PasscodeValue { value }
    }
}

impl HeaderValue<String> for PasscodeValue {
    open spec fn spec_header_name(&self) -> Seq<u8> {
        HeaderType::Passcode.spec_name_bytes()
    }

    open spec fn spec_value_text(&self) -> Seq<u8> {
        self@.spec_text()
    }

    open spec fn spec_value(&self) -> String {
        self.value
    }

    open spec fn spec_header_type(&self) -> Option<HeaderType> {
        Some(HeaderType::Passcode)
    }

    fn header_type(&self) -> (header: Option<HeaderType>) {
        Some(HeaderType::Passcode)
    }

    fn header_name(&self) -> (name: &str) {
        HeaderType::Passcode.name()
    }

    fn value(&self) -> (value: &String) {
        &self.value
    }

    fn to_string(&self) -> (line: String) {
        header_line(HeaderType::Passcode.name(), self.value.as_str())
    }
}

/// The value of a `receipt` header.
#[derive(Debug, Clone, PartialEq, Eq)]
pub struct ReceiptValue {
    pub value: String,
}

impl View for ReceiptValue {
    type V = ValueModel;

    open spec fn view(&self) -> ValueModel {
        ValueModel::Text(encode_utf8(self.value@))
    }
}

impl ReceiptValue {
    pub fn new(value: String) -> (r: ReceiptValue)
        ensures
            r.value == value,
    {
        ReceiptValue { value }
    }
}

impl HeaderValue<String> for ReceiptValue {
    open spec fn spec_header_name(&self) -> Seq<u8> {
        HeaderType::Receipt.spec_name_bytes()
    }

    open spec fn spec_value_text(&self) -> Seq<u8> {
        self@.spec_text()
    }

    open spec fn spec_value(&self) -> String {
        self.value
    }

    open spec fn spec_header_type(&self) -> Option<HeaderType> {
        Some(HeaderType::Receipt)
    }

    fn header_type(&self) -> (header: Option<HeaderType>) {
        Some(HeaderType::Receipt)
    }

    fn header_name(&self) -> (name: &str) {
        HeaderType::Receipt.name()
    }

    fn value(&self) -> (value: &String) {
        &self.value
    }

    fn to_string(&self) -> (line: String) {
        header_line(HeaderType::Receipt.name(), self.value.as_str())
    }
}

/// The value of a `receipt-id` header.
#[derive(Debug, Clone, PartialEq, Eq)]
pub struct ReceiptIdValue {
    pub value: String,
}

impl View for ReceiptIdValue {
    type V = ValueModel;

    open spec fn view(&self) -> ValueModel {
        ValueModel::Text(encode_utf8(self.value@))
    }
}

impl ReceiptIdValue {
    pub fn new(value: String) -> (r: ReceiptIdValue)
        ensures
            r.value == value,
    {
        ReceiptIdValue { value }
    }
}

impl HeaderValue<String> for ReceiptIdValue {
    open spec fn spec_header_name(&self) -> Seq<u8> {
        HeaderType::ReceiptId.spec_name_bytes()
    }

    open spec fn spec_value_text(&self) -> Seq<u8> {
        self@.spec_text()
    }

    open spec fn spec_value(&self) -> String {
        self.value
    }

    open spec fn spec_header_type(&self) -> Option<HeaderType> {
        Some(HeaderType::ReceiptId)
    }

    fn header_type(&self) -> (header: Option<HeaderType>) {
        Some(HeaderType::ReceiptId)
    }

    fn header_name(&self) -> (name: &str) {
        HeaderType::ReceiptId.name()
    }

    fn value(&self) -> (value: &String) {
        &self.value
    }

    fn to_string(&self) -> (line: String) {
        header_line(HeaderType::ReceiptId.name(), self.value.as_str())
    }
}

/// The value of a `server` header.
#[derive(Debug, Clone, PartialEq, Eq)]
pub struct ServerValue {
    pub value: String,
}

impl View for ServerValue {
    type V = ValueModel;

    open spec fn view(&self) -> ValueModel {
        ValueModel::Text(encode_utf8(self.value@))
    }
}

impl ServerValue {
    pub fn new(value: String) -> (r: ServerValue)
        ensures
            r.value == value,
    {
        ServerValue { value }
    }
}

impl HeaderValue<String> for ServerValue {
    open spec fn spec_header_name(&self) -> Seq<u8> {
        HeaderType::Server.spec_name_bytes()
    }

    open spec fn spec_value_text(&self) -> Seq<u8> {
        self@.spec_text()
    }

    open spec fn spec_value(&self) -> String {
        self.value
    }

    open spec fn spec_header_type(&self) -> Option<HeaderType> {
        Some(HeaderType::Server)
    }

    fn header_type(&self) -> (header: Option<HeaderType>) {
        Some(HeaderType::Server)
    }

    fn header_name(&self) -> (name: &str) {
        HeaderType::Server.name()
    }

    fn value(&self) -> (value: &String) {
        &self.value
    }

    fn to_string(&self) -> (line: String) {
        header_line(HeaderType::Server.name(), self.value.as_str())
    }
}

/// The value of a `session` header.
#[derive(Debug, Clone, PartialEq, Eq)]
pub struct SessionValue {
    pub value: String,
}

impl View for SessionValue {
    type V = ValueModel;

    open spec fn view(&self) -> ValueModel {
        ValueModel::Text(encode_utf8(self.value@))
    }
}

impl SessionValue {
    pub fn new(value: String) -> (r: SessionValue)
        ensures
            r.value == value,
    {
        SessionValue { value }
    }
}

impl HeaderValue<String> for SessionValue {
    open spec fn spec_header_name(&self) -> Seq<u8> {
        HeaderType::Session.spec_name_bytes()
    }

    open spec fn spec_value_text(&self) -> Seq<u8> {
        self@.spec_text()
    }

    open spec fn spec_value(&self) -> String {
        self.value
    }

    open spec fn spec_header_type(&self) -> Option<HeaderType> {
        Some(HeaderType::Session)
    }

    fn header_type(&self) -> (header: Option<HeaderType>) {
        Some(HeaderType::Session)
    }

    fn header_name(&self) -> (name: &str) {
        HeaderType::Session.name()
    }

    fn value(&self) -> (value: &String) {
        &self.value
    }

    fn to_string(&self) -> (line: String) {
        header_line(HeaderType::Session.name(), self.value.as_str())
    }
}

/// The value of a `subscription` header.
#[derive(Debug, Clone, PartialEq, Eq)]
pub struct SubscriptionValue {
    pub value: String,
}

impl View for SubscriptionValue {
    type V = ValueModel;

    open spec fn view(&self) -> ValueModel {
        ValueModel::Text(encode_utf8(self.value@))
    }
}

impl SubscriptionValue {
    pub fn new(value: String) -> (r: SubscriptionValue)
        ensures
            r.value == value,
    {
        SubscriptionValue { value }
    }
}

impl HeaderValue<String> for SubscriptionValue {
    open spec fn spec_header_name(&self) -> Seq<u8> {
        HeaderType::Subscription.spec_name_bytes()
    }

    open spec fn spec_value_text(&self) -> Seq<u8> {
        self@.spec_text()
    }

    open spec fn spec_value(&self) -> String {
        self.value
    }

    open spec fn spec_header_type(&self) -> Option<HeaderType> {
        Some(HeaderType::Subscription)
    }

    fn header_type(&self) -> (header: Option<HeaderType>) {
        Some(HeaderType::Subscription)
    }

    fn header_name(&self) -> (name: &str) {
        HeaderType::Subscription.name()
    }

    fn value(&self) -> (value: &String) {
        &self.value
    }

    fn to_string(&self) -> (line: String) {
        header_line(HeaderType::Subscription.name(), self.value.as_str())
    }
}

/// The value of a `transaction` header.
#[derive(Debug, Clone, PartialEq, Eq)]
pub struct TransactionValue {
    pub value: String,
}

impl View for TransactionValue {
    type V = ValueModel;

    open spec fn view(&self) -> ValueModel {
        ValueModel::Text(encode_utf8(self.value@))
    }
}

impl TransactionValue {
    pub fn new(value: String) -> (r: TransactionValue)
        ensures
            r.value == value,
    {
        TransactionValue { value }
    }
}

impl HeaderValue<String> for TransactionValue {
    open spec fn spec_header_name(&self) -> Seq<u8> {
        HeaderType::Transaction.spec_name_bytes()
    }

    open spec fn spec_value_text(&self) -> Seq<u8> {
        self@.spec_text()
    }

    open spec fn spec_value(&self) -> String {
        self.value
    }

    open spec fn spec_header_type(&self) -> Option<HeaderType> {
        Some(HeaderType::Transaction)
    }

    fn header_type(&self) -> (header: Option<HeaderType>) {
        Some(HeaderType::Transaction)
    }

    fn header_name(&self) -> (name: &str) {
        HeaderType::Transaction.name()
    }

    fn value(&self) -> (value: &String) {
        &self.value
    }

    fn to_string(&self) -> (line: String) {
        header_line(HeaderType::Transaction.name(), self.value.as_str())
    }
}

/// The value of a `version` header: the version of the protocol.
#[derive(Debug, Clone, PartialEq, Eq)]
pub struct VersionValue {
    pub value: StompVersion,
}

impl View for VersionValue {
    type V = ValueModel;

    open spec fn view(&self) -> ValueModel {
        ValueModel::Version(self.value@)
    }
}

impl VersionValue {
    pub fn new(value: StompVersion) -> (r: VersionValue)
        ensures
            r.value == value,
    {
        VersionValue { value }
    }
}

impl HeaderValue<StompVersion> for VersionValue {
    open spec fn spec_header_name(&self) -> Seq<u8> {
        HeaderType::Version.spec_name_bytes()
    }

    open spec fn spec_value_text(&self) -> Seq<u8> {
        self@.spec_text()
    }

    open spec fn spec_value(&self) -> StompVersion {
        self.value
    }

    open spec fn spec_header_type(&self) -> Option<HeaderType> {
        Some(HeaderType::Version)
    }

    fn header_type(&self) -> (header: Option<HeaderType>) {
        Some(HeaderType::Version)
    }

    fn header_name(&self) -> (name: &str) {
        HeaderType::Version.name()
    }

    fn value(&self) -> (value: &StompVersion) {
        &self.value
    }

    fn to_string(&self) -> (line: String) {
        let text = self.value.to_string();
        header_line(HeaderType::Version.name(), text.as_str())
    }
}

/// A header that the library does not know by name: the name and the value as
/// the frame gave them, escapes decoded.
#[derive(Debug, Clone, PartialEq, Eq)]
pub struct CustomValue {
    pub name: String,
    pub value: String,
}

impl CustomValue {
    pub fn new(name: String, value: String) -> (r: CustomValue)
        ensures
            r.name == name,
            r.value == value,
    {
        CustomValue { name, value }
    }
}

impl HeaderValue<String> for CustomValue {
    open spec fn spec_header_name(&self) -> Seq<u8> {
        encode_utf8(self.name@)
    }

    open spec fn spec_value_text(&self) -> Seq<u8> {
        encode_utf8(self.value@)
    }

    open spec fn spec_value(&self) -> String {
        self.value
    }

    open spec fn spec_header_type(&self) -> Option<HeaderType> {
        None
    }

    fn header_type(&self) -> (header: Option<HeaderType>) {
        None
    }

    fn header_name(&self) -> (name: &str)
        ensures
            name@ == self.name@,
    {
        self.name.as_str()
    }

    fn value(&self) -> (value: &String) {
        &self.value
    }

    fn to_string(&self) -> (line: String) {
        header_line(self.name.as_str(), self.value.as_str())
    }
}

/// Any header of a frame.
#[derive(Debug, Clone, PartialEq, Eq)]
pub enum Header {
    Ack(AckValue),
    AcceptVersion(AcceptVersionValue),
    ContentLength(ContentLengthValue),
    ContentType(ContentTypeValue),
    Destination(DestinationValue),
    HeartBeat(HeartBeatValue),
    Host(HostValue),
    Id(IdValue),
    Login(LoginValue),
    Message(MessageValue),
    MessageId(MessageIdValue),
    Passcode(PasscodeValue),
    Receipt(ReceiptValue),
    ReceiptId(ReceiptIdValue),
    Server(ServerValue),
    Session(SessionValue),
    Subscription(SubscriptionValue),
    Transaction(TransactionValue),
    Version(VersionValue),
    Custom(CustomValue),
}

impl View for Header {
    type V = HeaderModel;

    open spec fn view(&self) -> HeaderModel {
        match *self {
            Header::Ack(value) => HeaderModel::Known(HeaderType::Ack, value@),
            Header::AcceptVersion(value) => HeaderModel::Known(HeaderType::AcceptVersion, value@),
            Header::ContentLength(value) => HeaderModel::Known(HeaderType::ContentLength, value@),
            Header::ContentType(value) => HeaderModel::Known(HeaderType::ContentType, value@),
            Header::Destination(value) => HeaderModel::Known(HeaderType::Destination, value@),
            Header::HeartBeat(value) => HeaderModel::Known(HeaderType::HeartBeat, value@),
            Header::Host(value) => HeaderModel::Known(HeaderType::Host, value@),
            Header::Id(value) => HeaderModel::Known(HeaderType::Id, value@),
            Header::Login(value) => HeaderModel::Known(HeaderType::Login, value@),
            Header::Message(value) => HeaderModel::Known(HeaderType::Message, value@),
            Header::MessageId(value) => HeaderModel::Known(HeaderType::MessageId, value@),
            Header::Passcode(value) => HeaderModel::Known(HeaderType::Passcode, value@),
            Header::Receipt(value) => HeaderModel::Known(HeaderType::Receipt, value@),
            Header::ReceiptId(value) => HeaderModel::Known(HeaderType::ReceiptId, value@),
            Header::Server(value) => HeaderModel::Known(HeaderType::Server, value@),
            Header::Session(value) => HeaderModel::Known(HeaderType::Session, value@),
            Header::Subscription(value) => HeaderModel::Known(HeaderType::Subscription, value@),
            Header::Transaction(value) => HeaderModel::Known(HeaderType::Transaction, value@),
            Header::Version(value) => HeaderModel::Known(HeaderType::Version, value@),
            Header::Custom(custom) => HeaderModel::Custom(
                encode_utf8(custom.name@),
                encode_utf8(custom.value@),
            ),
        }
    }
}

impl Header {
    /// Whether the header is one of the given type.
    pub open spec fn spec_is(&self, of: HeaderType) -> bool {
        self@ matches HeaderModel::Known(known, _) && known == of
    }

    /// The value of the header, which is an `ack` header.
    pub fn into_ack(self) -> (value: AckValue)
        requires
            self.spec_is(HeaderType::Ack),
        ensures
            self == Header::Ack(value),
    {
        match self {
            Header::Ack(value) => value,
            _ => unreached(),
        }
    }

    /// The value of the header, which is an `accept-version` header.
    pub fn into_accept_version(self) -> (value: AcceptVersionValue)
        requires
            self.spec_is(HeaderType::AcceptVersion),
        ensures
            self == Header::AcceptVersion(value),
    {
        match self {
            Header::AcceptVersion(value) => value,
            _ => unreached(),
        }
    }

    /// The value of the header, which is a `content-length` header.
    pub fn into_content_length(self) -> (value: ContentLengthValue)
        requires
            self.spec_is(HeaderType::ContentLength),
        ensures
            self == Header::ContentLength(value),
    {
        match self {
            Header::ContentLength(value) => value,
            _ => unreached(),
        }
    }

    /// The value of the header, which is a `content-type` header.
    pub fn into_content_type(self) -> (value: ContentTypeValue)
        requires
            self.spec_is(HeaderType::ContentType),
        ensures
            self == Header::ContentType(value),
    {
        match self {
            Header::ContentType(value) => value,
            _ => unreached(),
        }
    }

    /// The value of the header, which is a `destination` header.
    pub fn into_destination(self) -> (value: DestinationValue)
        requires
            self.spec_is(HeaderType::Destination),
        ensures
            self == Header::Destination(value),
    {
        match self {
            Header::Destination(value) => value,
            _ => unreached(),
        }
    }

    /// The value of the header, which is a `heart-beat` header.
    pub fn into_heart_beat(self) -> (value: HeartBeatValue)
        requires
            self.spec_is(HeaderType::HeartBeat),
        ensures
            self == Header::HeartBeat(value),
    {
        match self {
            Header::HeartBeat(value) => value,
            _ => unreached(),
        }
    }

    /// The value of the header, which is a `host` header.
    pub fn into_host(self) -> (value: HostValue)
        requires
            self.spec_is(HeaderType::Host),
        ensures
            self == Header::Host(value),
    {
        match self {
            Header::Host(value) => value,
            _ => unreached(),
        }
    }

    /// The value of the header, which is an `id` header.
    pub fn into_id(self) -> (value: IdValue)
        requires
            self.spec_is(HeaderType::Id),
        ensures
            self == Header::Id(value),
    {
        match self {
            Header::Id(value) => value,
            _ => unreached(),
        }
    }

    /// The value of the header, which is a `login` header.
    pub fn into_login(self) -> (value: LoginValue)
        requires
            self.spec_is(HeaderType::Login),
        ensures
            self == Header::Login(value),
    {
        match self {
            Header::Login(value) => value,
            _ => unreached(),
        }
    }

    /// The value of the header, which is a `message` header.
    pub fn into_message(self) -> (value: MessageValue)
        requires
            self.spec_is(HeaderType::Message),
        ensures
            self == Header::Message(value),
    {
        match self {
            Header::Message(value) => value,
            _ => unreached(),
        }
    }

    /// The value of the header, which is a `message-id` header.
    pub fn into_message_id(self) -> (value: MessageIdValue)
        requires
            self.spec_is(HeaderType::MessageId),
        ensures
            self == Header::MessageId(value),
    {
        match self {
            Header::MessageId(value) => value,
            _ => unreached(),
        }
    }

    /// The value of the header, which is a `passcode` header.
    pub fn into_passcode(self) -> (value: PasscodeValue)
        requires
            self.spec_is(HeaderType::Passcode),
        ensures
            self == Header::Passcode(value),
    {
        match self {
            Header::Passcode(value) => value,
            _ => unreached(),
        }
    }

    /// The value of the header, which is a `receipt` header.
    pub fn into_receipt(self) -> (value: ReceiptValue)
        requires
            self.spec_is(HeaderType::Receipt),
        ensures
            self == Header::Receipt(value),
    {
        match self {
            Header::Receipt(value) => value,
            _ => unreached(),
        }
    }

    /// The value of the header, which is a `receipt-id` header.
    pub fn into_receipt_id(self) -> (value: ReceiptIdValue)
        requires
            self.spec_is(HeaderType::ReceiptId),
        ensures
            self == Header::ReceiptId(value),
    {
        match self {
            Header::ReceiptId(value) => value,
            _ => unreached(),
        }
    }

    /// The value of the header, which is a `server` header.
    pub fn into_server(self) -> (value: ServerValue)
        requires
            self.spec_is(HeaderType::Server),
        ensures
            self == Header::Server(value),
    {
        match self {
            Header::Server(value) => value,
            _ => unreached(),
        }
    }

    /// The value of the header, which is a `session` header.
    pub fn into_session(self) -> (value: SessionValue)
        requires
            self.spec_is(HeaderType::Session),
        ensures
            self == Header::Session(value),
    {
        match self {
            Header::Session(value) => value,
            _ => unreached(),
        }
    }

    /// The value of the header, which is a `subscription` header.
    pub fn into_subscription(self) -> (value: SubscriptionValue)
        requires
            self.spec_is(HeaderType::Subscription),
        ensures
            self == Header::Subscription(value),
    {
        match self {
            Header::Subscription(value) => value,
            _ => unreached(),
        }
    }

    /// The value of the header, which is a `transaction` header.
    pub fn into_transaction(self) -> (value: TransactionValue)
        requires
            self.spec_is(HeaderType::Transaction),
        ensures
            self == Header::Transaction(value),
    {
        match self {
            Header::Transaction(value) => value,
            _ => unreached(),
        }
    }

    /// The value of the header, which is a `version` header.
    pub fn into_version(self) -> (value: VersionValue)
        requires
            self.spec_is(HeaderType::Version),
        ensures
            self == Header::Version(value),
    {
        match self {
            Header::Version(value) => value,
            _ => unreached(),
        }
    }

    /// The type of the header, unless it is a custom header.
    pub fn header_type(&self) -> (r: Option<HeaderType>)
        ensures
            match r {
                Some(header) => self@ matches HeaderModel::Known(known, _) && known == header,
                None => self@ is Custom,
            },
    {
        match self {
            Header::Ack(_) => Some(HeaderType::Ack),
            Header::AcceptVersion(_) => Some(HeaderType::AcceptVersion),
            Header::ContentLength(_) => Some(HeaderType::ContentLength),
            Header::ContentType(_) => Some(HeaderType::ContentType),
            Header::Destination(_) => Some(HeaderType::Destination),
            Header::HeartBeat(_) => Some(HeaderType::HeartBeat),
            Header::Host(_) => Some(HeaderType::Host),
            Header::Id(_) => Some(HeaderType::Id),
            Header::Login(_) => Some(HeaderType::Login),
            Header::Message(_) => Some(HeaderType::Message),
            Header::MessageId(_) => Some(HeaderType::MessageId),
            Header::Passcode(_) => Some(HeaderType::Passcode),
            Header::Receipt(_) => Some(HeaderType::Receipt),
            Header::ReceiptId(_) => Some(HeaderType::ReceiptId),
            Header::Server(_) => Some(HeaderType::Server),
            Header::Session(_) => Some(HeaderType::Session),
            Header::Subscription(_) => Some(HeaderType::Subscription),
            Header::Transaction(_) => Some(HeaderType::Transaction),
            Header::Version(_) => Some(HeaderType::Version),
            Header::Custom(_) => None,
        }
    }

    /// The line `name:value` of the header.
    pub fn to_string(&self) -> (line: String)
        ensures
            encode_utf8(line@) == self@.spec_line(),
    {
        match self {
            Header::Ack(value) => value.to_string(),
            Header::AcceptVersion(value) => value.to_string(),
            Header::ContentLength(value) => value.to_string(),
            Header::ContentType(value) => value.to_string(),
            Header::Destination(value) => value.to_string(),
            Header::HeartBeat(value) => value.to_string(),
            Header::Host(value) => value.to_string(),
            Header::Id(value) => value.to_string(),
            Header::Login(value) => value.to_string(),
            Header::Message(value) => value.to_string(),
            Header::MessageId(value) => value.to_string(),
            Header::Passcode(value) => value.to_string(),
            Header::Receipt(value) => value.to_string(),
            Header::ReceiptId(value) => value.to_string(),
            Header::Server(value) => value.to_string(),
            Header::Session(value) => value.to_string(),
            Header::Subscription(value) => value.to_string(),
            Header::Transaction(value) => value.to_string(),
            Header::Version(value) => value.to_string(),
            Header::Custom(custom) => custom.to_string(),
        }
    }
}

/// Gives the header of the given type the value that `value` writes. A value
/// that the type does not accept is refused.
pub fn parse_header(header: HeaderType, value: String) -> (r: Result<Header, StompParseError>)
    ensures
        match r {
            Ok(parsed) => {
                &&& spec_value_from_text(header, encode_utf8(value@)) matches Some(model)
                &&& parsed@ == HeaderModel::Known(header, model)
            },
            Err(e) => {
                &&& spec_value_from_text(header, encode_utf8(value@)) is None
                &&& e.spec_is(Failure::InvalidHeaderValue(header))
            },
        },
{
    reveal(spec_value_from_text);
    match header {
        HeaderType::Ack => match AckType::from_str(value.as_str()) {
            Ok(ack) => Ok(Header::Ack(AckValue::new(ack))),
            Err(_) => Err(StompParseError::of(ErrorKind::InvalidHeaderValue(header))),
        },
        HeaderType::AcceptVersion => match StompVersions::from_str(value.as_str()) {
            Ok(versions) => Ok(Header::AcceptVersion(AcceptVersionValue::new(versions))),
            Err(e) => unreached(),
        },
        HeaderType::ContentLength => match parse_u32(value.as_str().as_bytes()) {
            Some(length) => Ok(Header::ContentLength(ContentLengthValue::new(length))),
            None => Err(StompParseError::of(ErrorKind::InvalidHeaderValue(header))),
        },
        HeaderType::HeartBeat => match HeartBeatIntervalls::from_str(value.as_str()) {
            Ok(intervalls) => Ok(Header::HeartBeat(HeartBeatValue::new(intervalls))),
            Err(_) => Err(StompParseError::of(ErrorKind::InvalidHeaderValue(header))),
        },
        HeaderType::Version => match StompVersion::from_str(value.as_str()) {
            Ok(version) => Ok(Header::Version(VersionValue::new(version))),
            Err(e) => unreached(),
        },
        HeaderType::ContentType => Ok(Header::ContentType(ContentTypeValue::new(value))),
        HeaderType::Destination => Ok(Header::Destination(DestinationValue::new(value))),
        HeaderType::Host => Ok(Header::Host(HostValue::new(value))),
        HeaderType::Id => Ok(Header::Id(IdValue::new(value))),
        HeaderType::Login => Ok(Header::Login(LoginValue::new(value))),
        HeaderType::Message => Ok(Header::Message(MessageValue::new(value))),
        HeaderType::MessageId => Ok(Header::MessageId(MessageIdValue::new(value))),
        HeaderType::Passcode => Ok(Header::Passcode(PasscodeValue::new(value))),
        HeaderType::Receipt => Ok(Header::Receipt(ReceiptValue::new(value))),
        HeaderType::ReceiptId => Ok(Header::ReceiptId(ReceiptIdValue::new(value))),
        HeaderType::Server => Ok(Header::Server(ServerValue::new(value))),
        HeaderType::Session => Ok(Header::Session(SessionValue::new(value))),
        HeaderType::Subscription => Ok(Header::Subscription(SubscriptionValue::new(value))),
        HeaderType::Transaction => Ok(Header::Transaction(TransactionValue::new(value))),
    }
}

} // verus!
