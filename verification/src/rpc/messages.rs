//! The records that the messages carry.
//!
//! A record is encoded as its fields in the order of their declaration, with
//! nothing between them. Its model is the tuple of the models of its fields,
//! nested to the right.

use super::codec::{lemma_concat_assoc, Fault, Wire};
use super::error::Error;
use vstd::prelude::*;

verus! {

/// The fields of a failure and of a notification: a number and a text.
pub type Notice<'a> = (u32, &'a str);

/// What a failure or a notification stands for: its number and its text.
pub type NoticeModel = (u32, Seq<char>);

/// Tells the peer that its request failed.
pub struct RpcFail<'a> {
    /// What went wrong, as a number.
    pub code: u32,
    /// What went wrong, in words.
    pub message: &'a str,
}

impl<'a> Wire<'a> for RpcFail<'a> {
    type Model = NoticeModel;

    open spec fn model(&self) -> NoticeModel {
        (self.code, self.message@)
    }

    open spec fn valid(m: NoticeModel) -> bool {
        Notice::valid(m)
    }

    open spec fn encoding(m: NoticeModel) -> Seq<u8> {
        Notice::encoding(m)
    }

    open spec fn parse(input: Seq<u8>) -> Result<(NoticeModel, int), Fault> {
        Notice::parse(input)
    }

    proof fn lemma_model_valid(&self) {
        self.code.lemma_model_valid();
        self.message.lemma_model_valid();
    }

    proof fn lemma_encoding_nonempty(m: NoticeModel) {
        Notice::lemma_encoding_nonempty(m);
    }

    proof fn lemma_parse_exact(input: Seq<u8>) {
        Notice::lemma_parse_exact(input);
    }

    proof fn lemma_round_trip(m: NoticeModel, rest: Seq<u8>) {
        Notice::lemma_round_trip(m, rest);
    }

    fn fits(&self, budget: u32) -> (left: Option<u32>) {
        let left = match self.code.fits(budget) {
            Some(k) => k,
            None => return None,
        };
        self.message.fits(left)
    }

    fn encode(&self, out: &mut Vec<u8>) {
        self.code.encode(out);
        self.message.encode(out);
        assert(out@ =~= old(out)@ + Self::encoding(self.model()));
    }

    fn decode(input: &'a [u8]) -> (r: Result<(RpcFail<'a>, usize), Error>) {
        match Notice::decode(input) {
            Err(e) => Err(e),
            Ok(((code, message), n)) => Ok((RpcFail { code, message }, n)),
        }
    }
}

/// Tells the peer something that it did not ask for.
pub struct RpcNotify<'a> {
    /// The kind of notification.
    pub code: u32,
    /// The text to show.
    pub message: &'a str,
}

impl<'a> Wire<'a> for RpcNotify<'a> {
    type Model = NoticeModel;

    open spec fn model(&self) -> NoticeModel {
        (self.code, self.message@)
    }

    open spec fn valid(m: NoticeModel) -> bool {
        Notice::valid(m)
    }

    open spec fn encoding(m: NoticeModel) -> Seq<u8> {
        Notice::encoding(m)
    }

    open spec fn parse(input: Seq<u8>) -> Result<(NoticeModel, int), Fault> {
        Notice::parse(input)
    }

    proof fn lemma_model_valid(&self) {
        self.code.lemma_model_valid();
        self.message.lemma_model_valid();
    }

    proof fn lemma_encoding_nonempty(m: NoticeModel) {
        Notice::lemma_encoding_nonempty(m);
    }

    proof fn lemma_parse_exact(input: Seq<u8>) {
        Notice::lemma_parse_exact(input);
    }

    proof fn lemma_round_trip(m: NoticeModel, rest: Seq<u8>) {
        Notice::lemma_round_trip(m, rest);
    }

    fn fits(&self, budget: u32) -> (left: Option<u32>) {
        let left = match self.code.fits(budget) {
            Some(k) => k,
            None => return None,
        };
        self.message.fits(left)
    }

    fn encode(&self, out: &mut Vec<u8>) {
        self.code.encode(out);
        self.message.encode(out);
        assert(out@ =~= old(out)@ + Self::encoding(self.model()));
    }

    fn decode(input: &'a [u8]) -> (r: Result<(RpcNotify<'a>, usize), Error>) {
        match Notice::decode(input) {
            Err(e) => Err(e),
            Ok(((code, message), n)) => Ok((RpcNotify { code, message }, n)),
        }
    }
}

/// The fields of a handshake.
pub type HelloFields<'a> = (u32, (&'a [u8], ([u8; 6], u32)));

/// What a handshake stands for.
pub type HelloModel = (u32, (Seq<u8>, (Seq<u8>, u32)));

/// Opens a session: who the client is and which protocol it speaks.
pub struct RpcHello<'a> {
    /// The version of the protocol that the client speaks.
    pub protocol_version: u32,
    /// The client's license, as issued.
    pub license_data: &'a [u8],
    /// The number of that license.
    pub license_id: [u8; 6],
    /// Options of the session.
    pub flags: u32,
}

impl<'a> Wire<'a> for RpcHello<'a> {
    type Model = HelloModel;

    open spec fn model(&self) -> HelloModel {
        (self.protocol_version, (self.license_data@, (self.license_id@, self.flags)))
    }

    open spec fn valid(m: HelloModel) -> bool {
        HelloFields::valid(m)
    }

    open spec fn encoding(m: HelloModel) -> Seq<u8> {
        HelloFields::encoding(m)
    }

    open spec fn parse(input: Seq<u8>) -> Result<(HelloModel, int), Fault> {
        HelloFields::parse(input)
    }

    proof fn lemma_model_valid(&self) {
        self.protocol_version.lemma_model_valid();
        self.license_data.lemma_model_valid();
        self.license_id.lemma_model_valid();
        self.flags.lemma_model_valid();
    }

    proof fn lemma_encoding_nonempty(m: HelloModel) {
        HelloFields::lemma_encoding_nonempty(m);
    }

    proof fn lemma_parse_exact(input: Seq<u8>) {
        HelloFields::lemma_parse_exact(input);
    }

    proof fn lemma_round_trip(m: HelloModel, rest: Seq<u8>) {
        HelloFields::lemma_round_trip(m, rest);
    }

    fn fits(&self, budget: u32) -> (left: Option<u32>) {
        let left = match self.protocol_version.fits(budget) {
            Some(k) => k,
            None => return None,
        };
        let left = match self.license_data.fits(left) {
            Some(k) => k,
            None => return None,
        };
        let left = match self.license_id.fits(left) {
            Some(k) => k,
            None => return None,
        };
        self.flags.fits(left)
    }

    fn encode(&self, out: &mut Vec<u8>) {
        self.protocol_version.encode(out);
        let ghost before_license_data = out@;
        self.license_data.encode(out);
        let ghost before_license_id = out@;
        self.license_id.encode(out);
        let ghost before_flags = out@;
        self.flags.encode(out);
        proof {
            let protocol_version = <u32 as Wire>::encoding(self.protocol_version);
            let license_data = <&'a [u8] as Wire>::encoding(self.license_data@);
            let license_id = <[u8; 6] as Wire>::encoding(self.license_id@);
            let flags = <u32 as Wire>::encoding(self.flags);
            lemma_concat_assoc(before_license_id, license_id, flags);
            lemma_concat_assoc(before_license_data, license_data, license_id + flags);
            lemma_concat_assoc(old(out)@, protocol_version, license_data + (license_id + flags));
        }
    }

    fn decode(input: &'a [u8]) -> (r: Result<(RpcHello<'a>, usize), Error>) {
        match HelloFields::decode(input) {
            Err(e) => Err(e),
            Ok(((protocol_version, (license_data, (license_id, flags))), n)) => Ok(
                (
                    RpcHello {
                        protocol_version,
                        license_data,
                        license_id,
                        flags,
                    },
                    n,
                ),
            ),
        }
    }
}

/// The fields of a function in a pull request.
pub type PullFuncFields<'a> = (u32, &'a [u8]);

/// What a function in a pull request stands for.
pub type PullFuncModel = (u32, Seq<u8>);

/// One function whose metadata is asked for.
pub struct PullMetadataFunc<'a> {
    /// Options of the lookup.
    pub flags: u32,
    /// The hash that identifies the function.
    pub hash: &'a [u8],
}

impl<'a> Wire<'a> for PullMetadataFunc<'a> {
    type Model = PullFuncModel;

    open spec fn model(&self) -> PullFuncModel {
        (self.flags, self.hash@)
    }

    open spec fn valid(m: PullFuncModel) -> bool {
        PullFuncFields::valid(m)
    }

    open spec fn encoding(m: PullFuncModel) -> Seq<u8> {
        PullFuncFields::encoding(m)
    }

    open spec fn parse(input: Seq<u8>) -> Result<(PullFuncModel, int), Fault> {
        PullFuncFields::parse(input)
    }

    proof fn lemma_model_valid(&self) {
        self.flags.lemma_model_valid();
        self.hash.lemma_model_valid();
    }

    proof fn lemma_encoding_nonempty(m: PullFuncModel) {
        PullFuncFields::lemma_encoding_nonempty(m);
    }

    proof fn lemma_parse_exact(input: Seq<u8>) {
        PullFuncFields::lemma_parse_exact(input);
    }

    proof fn lemma_round_trip(m: PullFuncModel, rest: Seq<u8>) {
        PullFuncFields::lemma_round_trip(m, rest);
    }

    fn fits(&self, budget: u32) -> (left: Option<u32>) {
        let left = match self.flags.fits(budget) {
            Some(k) => k,
            None => return None,
        };
        self.hash.fits(left)
    }

    fn encode(&self, out: &mut Vec<u8>) {
        self.flags.encode(out);
        self.hash.encode(out);
        assert(out@ =~= old(out)@ + Self::encoding(self.model()));
    }

    fn decode(input: &'a [u8]) -> (r: Result<(PullMetadataFunc<'a>, usize), Error>) {
        match PullFuncFields::decode(input) {
            Err(e) => Err(e),
            Ok(((flags, hash), n)) => Ok((PullMetadataFunc { flags, hash }, n)),
        }
    }
}

/// The fields of a pull request.
pub type PullFields<'a> = (u32, (Vec<u32>, Vec<PullMetadataFunc<'a>>));

/// What a pull request stands for.
pub type PullModel = (u32, (Seq<u32>, Seq<PullFuncModel>));

/// Asks for the metadata of a list of functions.
pub struct PullMetadata<'a> {
    /// Options of the request.
    pub flags: u32,
    /// Keys of the databases to search.
    pub keys: Vec<u32>,
    /// The functions asked for.
    pub funcs: Vec<PullMetadataFunc<'a>>,
}

impl<'a> Wire<'a> for PullMetadata<'a> {
    type Model = PullModel;

    open spec fn model(&self) -> PullModel {
        (self.flags, (self.keys.model(), self.funcs.model()))
    }

    open spec fn valid(m: PullModel) -> bool {
        PullFields::valid(m)
    }

    open spec fn encoding(m: PullModel) -> Seq<u8> {
        PullFields::encoding(m)
    }

    open spec fn parse(input: Seq<u8>) -> Result<(PullModel, int), Fault> {
        PullFields::parse(input)
    }

    proof fn lemma_model_valid(&self) {
        self.flags.lemma_model_valid();
        self.keys.lemma_model_valid();
        self.funcs.lemma_model_valid();
    }

    proof fn lemma_encoding_nonempty(m: PullModel) {
        PullFields::lemma_encoding_nonempty(m);
    }

    proof fn lemma_parse_exact(input: Seq<u8>) {
        PullFields::lemma_parse_exact(input);
    }

    proof fn lemma_round_trip(m: PullModel, rest: Seq<u8>) {
        PullFields::lemma_round_trip(m, rest);
    }

    fn fits(&self, budget: u32) -> (left: Option<u32>) {
        let left = match self.flags.fits(budget) {
            Some(k) => k,
            None => return None,
        };
        let left = match self.keys.fits(left) {
            Some(k) => k,
            None => return None,
        };
        self.funcs.fits(left)
    }

    fn encode(&self, out: &mut Vec<u8>) {
        self.flags.encode(out);
        let ghost before_keys = out@;
        self.keys.encode(out);
        let ghost before_funcs = out@;
        self.funcs.encode(out);
        proof {
            let flags = <u32 as Wire>::encoding(self.flags);
            let keys = <Vec<u32> as Wire>::encoding(self.keys.model());
            let funcs = <Vec<PullMetadataFunc<'a>> as Wire>::encoding(self.funcs.model());
            lemma_concat_assoc(before_keys, keys, funcs);
            lemma_concat_assoc(old(out)@, flags, keys + funcs);
        }
    }

    fn decode(input: &'a [u8]) -> (r: Result<(PullMetadata<'a>, usize), Error>) {
        match PullFields::decode(input) {
            Err(e) => Err(e),
            Ok(((flags, (keys, funcs)), n)) => Ok((PullMetadata { flags, keys, funcs }, n)),
        }
    }
}

/// The fields of a function in a pull result.
pub type PullResultFuncFields<'a> = (&'a str, (u32, (&'a [u8], u32)));

/// What a function in a pull result stands for.
pub type PullResultFuncModel = (Seq<char>, (u32, (Seq<u8>, u32)));

/// The metadata found for one function.
pub struct PullMetadataResultFunc<'a> {
    /// The function's name.
    pub name: &'a str,
    /// The function's size in bytes.
    pub len: u32,
    /// The metadata itself.
    pub data: &'a [u8],
    /// How many clients have pushed this function.
    pub popularity: u32,
}

impl<'a> Wire<'a> for PullMetadataResultFunc<'a> {
    type Model = PullResultFuncModel;

    open spec fn model(&self) -> PullResultFuncModel {
        (self.name@, (self.len, (self.data@, self.popularity)))
    }

    open spec fn valid(m: PullResultFuncModel) -> bool {
        PullResultFuncFields::valid(m)
    }

    open spec fn encoding(m: PullResultFuncModel) -> Seq<u8> {
        PullResultFuncFields::encoding(m)
    }

    open spec fn parse(input: Seq<u8>) -> Result<(PullResultFuncModel, int), Fault> {
        PullResultFuncFields::parse(input)
    }

    proof fn lemma_model_valid(&self) {
        self.name.lemma_model_valid();
        self.len.lemma_model_valid();
        self.data.lemma_model_valid();
        self.popularity.lemma_model_valid();
    }

    proof fn lemma_encoding_nonempty(m: PullResultFuncModel) {
        PullResultFuncFields::lemma_encoding_nonempty(m);
    }

    proof fn lemma_parse_exact(input: Seq<u8>) {
        PullResultFuncFields::lemma_parse_exact(input);
    }

    proof fn lemma_round_trip(m: PullResultFuncModel, rest: Seq<u8>) {
        PullResultFuncFields::lemma_round_trip(m, rest);
    }

    fn fits(&self, budget: u32) -> (left: Option<u32>) {
        let left = match self.name.fits(budget) {
            Some(k) => k,
            None => return None,
        };
        let left = match self.len.fits(left) {
            Some(k) => k,
            None => return None,
        };
        let left = match self.data.fits(left) {
            Some(k) => k,
            None => return None,
        };
        self.popularity.fits(left)
    }

    fn encode(&self, out: &mut Vec<u8>) {
        self.name.encode(out);
        let ghost before_len = out@;
        self.len.encode(out);
        let ghost before_data = out@;
        self.data.encode(out);
        let ghost before_popularity = out@;
        self.popularity.encode(out);
        proof {
            let name = <&'a str as Wire>::encoding(self.name@);
            let len = <u32 as Wire>::encoding(self.len);
            let data = <&'a [u8] as Wire>::encoding(self.data@);
            let popularity = <u32 as Wire>::encoding(self.popularity);
            lemma_concat_assoc(before_data, data, popularity);
            lemma_concat_assoc(before_len, len, data + popularity);
            lemma_concat_assoc(old(out)@, name, len + (data + popularity));
        }
    }

    fn decode(input: &'a [u8]) -> (r: Result<(PullMetadataResultFunc<'a>, usize), Error>) {
        match PullResultFuncFields::decode(input) {
            Err(e) => Err(e),
            Ok(((name, (len, (data, popularity))), n)) => Ok(
                (
                    PullMetadataResultFunc {
                        name,
                        len,
                        data,
                        popularity,
                    },
                    n,
                ),
            ),
        }
    }
}

/// The fields of a pull result.
pub type PullResultFields<'a> = (Vec<u32>, Vec<PullMetadataResultFunc<'a>>);

/// What a pull result stands for.
pub type PullResultModel = (Seq<u32>, Seq<PullResultFuncModel>);

/// Answers a pull request.
pub struct PullMetadataResult<'a> {
    /// For each function asked for, whether it was found.
    pub status: Vec<u32>,
    /// What was found, in the order of the request.
    pub funcs: Vec<PullMetadataResultFunc<'a>>,
}

impl<'a> Wire<'a> for PullMetadataResult<'a> {
    type Model = PullResultModel;

    open spec fn model(&self) -> PullResultModel {
        (self.status.model(), self.funcs.model())
    }

    open spec fn valid(m: PullResultModel) -> bool {
        PullResultFields::valid(m)
    }

    open spec fn encoding(m: PullResultModel) -> Seq<u8> {
        PullResultFields::encoding(m)
    }

    open spec fn parse(input: Seq<u8>) -> Result<(PullResultModel, int), Fault> {
        PullResultFields::parse(input)
    }

    proof fn lemma_model_valid(&self) {
        self.status.lemma_model_valid();
        self.funcs.lemma_model_valid();
    }

    proof fn lemma_encoding_nonempty(m: PullResultModel) {
        PullResultFields::lemma_encoding_nonempty(m);
    }

    proof fn lemma_parse_exact(input: Seq<u8>) {
        PullResultFields::lemma_parse_exact(input);
    }

    proof fn lemma_round_trip(m: PullResultModel, rest: Seq<u8>) {
        PullResultFields::lemma_round_trip(m, rest);
    }

    fn fits(&self, budget: u32) -> (left: Option<u32>) {
        let left = match self.status.fits(budget) {
            Some(k) => k,
            None => return None,
        };
        self.funcs.fits(left)
    }

    fn encode(&self, out: &mut Vec<u8>) {
        self.status.encode(out);
        self.funcs.encode(out);
        assert(out@ =~= old(out)@ + Self::encoding(self.model()));
    }

    fn decode(input: &'a [u8]) -> (r: Result<(PullMetadataResult<'a>, usize), Error>) {
        match PullResultFields::decode(input) {
            Err(e) => Err(e),
            Ok(((status, funcs), n)) => Ok((PullMetadataResult { status, funcs }, n)),
        }
    }
}

/// The fields of a function in a push request.
pub type PushFuncFields<'a> = (&'a str, (u32, (&'a [u8], (u32, &'a [u8]))));

/// What a function in a push request stands for.
pub type PushFuncModel = (Seq<char>, (u32, (Seq<u8>, (u32, Seq<u8>))));

/// One function whose metadata is sent.
pub struct PushMetadataFunc<'a> {
    /// The function's name.
    pub name: &'a str,
    /// The function's size in bytes.
    pub len: u32,
    /// The metadata itself.
    pub data: &'a [u8],
    /// Options of the function.
    pub flags: u32,
    /// The hash that identifies the function.
    pub hash: &'a [u8],
}

impl<'a> Wire<'a> for PushMetadataFunc<'a> {
    type Model = PushFuncModel;

    open spec fn model(&self) -> PushFuncModel {
        (self.name@, (self.len, (self.data@, (self.flags, self.hash@))))
    }

    open spec fn valid(m: PushFuncModel) -> bool {
        PushFuncFields::valid(m)
    }

    open spec fn encoding(m: PushFuncModel) -> Seq<u8> {
        PushFuncFields::encoding(m)
    }

    open spec fn parse(input: Seq<u8>) -> Result<(PushFuncModel, int), Fault> {
        PushFuncFields::parse(input)
    }

    proof fn lemma_model_valid(&self) {
        self.name.lemma_model_valid();
        self.len.lemma_model_valid();
        self.data.lemma_model_valid();
        self.flags.lemma_model_valid();
        self.hash.lemma_model_valid();
    }

    proof fn lemma_encoding_nonempty(m: PushFuncModel) {
        PushFuncFields::lemma_encoding_nonempty(m);
    }

    proof fn lemma_parse_exact(input: Seq<u8>) {
        PushFuncFields::lemma_parse_exact(input);
    }

    proof fn lemma_round_trip(m: PushFuncModel, rest: Seq<u8>) {
        PushFuncFields::lemma_round_trip(m, rest);
    }

    fn fits(&self, budget: u32) -> (left: Option<u32>) {
        let left = match self.name.fits(budget) {
            Some(k) => k,
            None => return None,
        };
        let left = match self.len.fits(left) {
            Some(k) => k,
            None => return None,
        };
        let left = match self.data.fits(left) {
            Some(k) => k,
            None => return None,
        };
        let left = match self.flags.fits(left) {
            Some(k) => k,
            None => return None,
        };
        self.hash.fits(left)
    }

    fn encode(&self, out: &mut Vec<u8>) {
        self.name.encode(out);
        let ghost before_len = out@;
        self.len.encode(out);
        let ghost before_data = out@;
        self.data.encode(out);
        let ghost before_flags = out@;
        self.flags.encode(out);
        let ghost before_hash = out@;
        self.hash.encode(out);
        proof {
            let name = <&'a str as Wire>::encoding(self.name@);
            let len = <u32 as Wire>::encoding(self.len);
            let data = <&'a [u8] as Wire>::encoding(self.data@);
            let flags = <u32 as Wire>::encoding(self.flags);
            let hash = <&'a [u8] as Wire>::encoding(self.hash@);
            lemma_concat_assoc(before_flags, flags, hash);
            lemma_concat_assoc(before_data, data, flags + hash);
            lemma_concat_assoc(before_len, len, data + (flags + hash));
            lemma_concat_assoc(old(out)@, name, len + (data + (flags + hash)));
        }
    }

    fn decode(input: &'a [u8]) -> (r: Result<(PushMetadataFunc<'a>, usize), Error>) {
        match PushFuncFields::decode(input) {
            Err(e) => Err(e),
            Ok(((name, (len, (data, (flags, hash)))), n)) => Ok(
                (
                    PushMetadataFunc {
                        name,
                        len,
                        data,
                        flags,
                        hash,
                    },
                    n,
                ),
            ),
        }
    }
}

/// The fields of a push request.
pub type PushFields<'a> = (
    u32,
    (&'a str, (&'a str, ([u8; 16], (&'a str, (Vec<PushMetadataFunc<'a>>, Vec<u64>))))),
);

/// What a push request stands for.
pub type PushModel = (
    u32,
    (Seq<char>, (Seq<char>, (Seq<u8>, (Seq<char>, (Seq<PushFuncModel>, Seq<u64>))))),
);

/// Sends the metadata of a list of functions.
pub struct PushMetadata<'a> {
    /// Options of the request.
    pub flags: u32,
    /// Where the client keeps its database.
    pub idb_path: &'a str,
    /// Where the analysed file lies.
    pub file_path: &'a str,
    /// The MD5 digest of the analysed file.
    pub md5: [u8; 16],
    /// The name of the client's machine.
    pub hostname: &'a str,
    /// The functions sent.
    pub funcs: Vec<PushMetadataFunc<'a>>,
    /// The address of each function in the file.
    pub addresses: Vec<u64>,
}

impl<'a> Wire<'a> for PushMetadata<'a> {
    type Model = PushModel;

    open spec fn model(&self) -> PushModel {
        (
            self.flags,
            (
                self.idb_path@,
                (
                    self.file_path@,
                    (self.md5@, (self.hostname@, (self.funcs.model(), self.addresses.model()))),
                ),
            ),
        )
    }

    open spec fn valid(m: PushModel) -> bool {
        PushFields::valid(m)
    }

    open spec fn encoding(m: PushModel) -> Seq<u8> {
        PushFields::encoding(m)
    }

    open spec fn parse(input: Seq<u8>) -> Result<(PushModel, int), Fault> {
        PushFields::parse(input)
    }

    proof fn lemma_model_valid(&self) {
        self.flags.lemma_model_valid();
        self.idb_path.lemma_model_valid();
        self.file_path.lemma_model_valid();
        self.md5.lemma_model_valid();
        self.hostname.lemma_model_valid();
        self.funcs.lemma_model_valid();
        self.addresses.lemma_model_valid();
    }

    proof fn lemma_encoding_nonempty(m: PushModel) {
        PushFields::lemma_encoding_nonempty(m);
    }

    proof fn lemma_parse_exact(input: Seq<u8>) {
        PushFields::lemma_parse_exact(input);
    }

    proof fn lemma_round_trip(m: PushModel, rest: Seq<u8>) {
        PushFields::lemma_round_trip(m, rest);
    }

    fn fits(&self, budget: u32) -> (left: Option<u32>) {
        let left = match self.flags.fits(budget) {
            Some(k) => k,
            None => return None,
        };
        let left = match self.idb_path.fits(left) {
            Some(k) => k,
            None => return None,
        };
        let left = match self.file_path.fits(left) {
            Some(k) => k,
            None => return None,
        };
        let left = match self.md5.fits(left) {
            Some(k) => k,
            None => return None,
        };
        let left = match self.hostname.fits(left) {
            Some(k) => k,
            None => return None,
        };
        let left = match self.funcs.fits(left) {
            Some(k) => k,
            None => return None,
        };
        self.addresses.fits(left)
    }

    fn encode(&self, out: &mut Vec<u8>) {
        self.flags.encode(out);
        let ghost before_idb_path = out@;
        self.idb_path.encode(out);
        let ghost before_file_path = out@;
        self.file_path.encode(out);
        let ghost before_md5 = out@;
        self.md5.encode(out);
        let ghost before_hostname = out@;
        self.hostname.encode(out);
        let ghost before_funcs = out@;
        self.funcs.encode(out);
        let ghost before_addresses = out@;
        self.addresses.encode(out);
        proof {
            let flags = <u32 as Wire>::encoding(self.flags);
            let idb_path = <&'a str as Wire>::encoding(self.idb_path@);
            let file_path = <&'a str as Wire>::encoding(self.file_path@);
            let md5 = <[u8; 16] as Wire>::encoding(self.md5@);
            let hostname = <&'a str as Wire>::encoding(self.hostname@);
            let funcs = <Vec<PushMetadataFunc<'a>> as Wire>::encoding(self.funcs.model());
            let addresses = <Vec<u64> as Wire>::encoding(self.addresses.model());
            lemma_concat_assoc(before_funcs, funcs, addresses);
            lemma_concat_assoc(before_hostname, hostname, funcs + addresses);
            lemma_concat_assoc(before_md5, md5, hostname + (funcs + addresses));
            lemma_concat_assoc(before_file_path, file_path, md5 + (hostname + (funcs + addresses)));
            lemma_concat_assoc(
                before_idb_path,
                idb_path,
                file_path + (md5 + (hostname + (funcs + addresses))),
            );
            lemma_concat_assoc(
                old(out)@,
                flags,
                idb_path + (file_path + (md5 + (hostname + (funcs + addresses)))),
            );
        }
    }

    fn decode(input: &'a [u8]) -> (r: Result<(PushMetadata<'a>, usize), Error>) {
        match PushFields::decode(input) {
            Err(e) => Err(e),
            Ok(((flags, (idb_path, (file_path, (md5, (hostname, (funcs, addresses)))))), n)) => Ok(
                (
                    PushMetadata {
                        flags,
                        idb_path,
                        file_path,
                        md5,
                        hostname,
                        funcs,
                        addresses,
                    },
                    n,
                ),
            ),
        }
    }
}

/// The field of a push result.
pub type PushResultFields = Vec<u32>;

/// What a push result stands for.
pub type PushResultModel = Seq<u32>;

/// Answers a push request.
pub struct PushMetadataResult {
    /// For each function sent, whether it was new.
    pub status: Vec<u32>,
}

impl<'a> Wire<'a> for PushMetadataResult {
    type Model = PushResultModel;

    open spec fn model(&self) -> PushResultModel {
        self.status.model()
    }

    open spec fn valid(m: PushResultModel) -> bool {
        PushResultFields::valid(m)
    }

    open spec fn encoding(m: PushResultModel) -> Seq<u8> {
        PushResultFields::encoding(m)
    }

    open spec fn parse(input: Seq<u8>) -> Result<(PushResultModel, int), Fault> {
        PushResultFields::parse(input)
    }

    proof fn lemma_model_valid(&self) {
        self.status.lemma_model_valid();
    }

    proof fn lemma_encoding_nonempty(m: PushResultModel) {
        PushResultFields::lemma_encoding_nonempty(m);
    }

    proof fn lemma_parse_exact(input: Seq<u8>) {
        PushResultFields::lemma_parse_exact(input);
    }

    proof fn lemma_round_trip(m: PushResultModel, rest: Seq<u8>) {
        PushResultFields::lemma_round_trip(m, rest);
    }

    fn fits(&self, budget: u32) -> (left: Option<u32>) {
        self.status.fits(budget)
    }

    fn encode(&self, out: &mut Vec<u8>) {
        self.status.encode(out);
    }

    fn decode(input: &'a [u8]) -> (r: Result<(PushMetadataResult, usize), Error>) {
        match PushResultFields::decode(input) {
            Err(e) => Err(e),
            Ok((status, n)) => Ok((PushMetadataResult { status }, n)),
        }
    }
}

} // verus!
