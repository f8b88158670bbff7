use rustysynth::binary_reader::BinaryReader;
use rustysynth::generator::Generator;
use rustysynth::zone::Zone;
use rustysynth::{FourCC, ParseError, SoundFont};

fn u16le(v: u16) -> Vec<u8> {
    v.to_le_bytes().to_vec()
}

fn i16le(v: i16) -> Vec<u8> {
    v.to_le_bytes().to_vec()
}

fn i32le(v: i32) -> Vec<u8> {
    v.to_le_bytes().to_vec()
}

fn chunk(id: &[u8; 4], body: &[u8]) -> Vec<u8> {
    let mut v = id.to_vec();
    v.extend(i32le(body.len() as i32));
    v.extend_from_slice(body);
    v
}

fn list(list_type: &[u8; 4], subs: &[Vec<u8>]) -> Vec<u8> {
    let mut body = list_type.to_vec();
    for s in subs {
        body.extend_from_slice(s);
    }
    chunk(b"LIST", &body)
}

fn name20(s: &str) -> Vec<u8> {
    let mut v = s.as_bytes().to_vec();
    v.resize(20, 0);
    v
}

fn phdr_record(name: &str, patch: i16, bank: i16, bag: u16) -> Vec<u8> {
    let mut v = name20(name);
    v.extend(i16le(patch));
    v.extend(i16le(bank));
    v.extend(u16le(bag));
    v.extend(i32le(0));
    v.extend(i32le(0));
    v.extend(i32le(0));
    v
}

fn inst_record(name: &str, bag: u16) -> Vec<u8> {
    let mut v = name20(name);
    v.extend(u16le(bag));
    v
}

fn bag_record(gen_index: u16) -> Vec<u8> {
    let mut v = u16le(gen_index);
    v.extend(u16le(0));
    v
}

fn gen_record(t: u16, value: u16) -> Vec<u8> {
    let mut v = u16le(t);
    v.extend(u16le(value));
    v
}

fn shdr_record(name: &str, start: i32, end: i32, start_loop: i32, end_loop: i32) -> Vec<u8> {
    let mut v = name20(name);
    v.extend(i32le(start));
    v.extend(i32le(end));
    v.extend(i32le(start_loop));
    v.extend(i32le(end_loop));
    v.extend(i32le(44100));
    v.push(60);
    v.push(0xfe);
    v.extend(u16le(0));
    v.extend(u16le(1));
    v
}

fn concat(parts: &[Vec<u8>]) -> Vec<u8> {
    let mut v = Vec::new();
    for p in parts {
        v.extend_from_slice(p);
    }
    v
}

/// The parts of a bank, each ready to be laid out as a sub-chunk body.
struct Bank {
    form: [u8; 4],
    version_major: i16,
    smpl: Option<Vec<u8>>,
    phdr: Vec<u8>,
    pbag: Vec<u8>,
    pgen: Vec<u8>,
    inst: Vec<u8>,
    ibag: Vec<u8>,
    igen: Vec<u8>,
    shdr: Option<Vec<u8>>,
}

impl Bank {
    /// One preset (bank 0, patch 0) that plays one instrument that plays one sample.
    fn minimal() -> Bank {
        Bank {
            form: *b"sfbk",
            version_major: 2,
            smpl: Some(concat(&[i16le(0), i16le(100), i16le(-100), i16le(0)])),
            phdr: concat(&[phdr_record("Piano", 0, 0, 0), phdr_record("EOP", 0, 0, 1)]),
            pbag: concat(&[bag_record(0), bag_record(1)]),
            pgen: concat(&[gen_record(41, 0), gen_record(0, 0)]),
            inst: concat(&[inst_record("Grand", 0), inst_record("EOI", 1)]),
            ibag: concat(&[bag_record(0), bag_record(1)]),
            igen: concat(&[gen_record(53, 0), gen_record(0, 0)]),
            shdr: Some(concat(&[shdr_record("Sample", 0, 4, 1, 3), vec![0; 46]])),
        }
    }

    fn build(&self) -> Vec<u8> {
        let mut ifil = i16le(self.version_major);
        ifil.extend(i16le(1));
        let info = list(b"INFO", &[chunk(b"ifil", &ifil), chunk(b"INAM", b"Test bank\0")]);
        let mut sdta_subs = Vec::new();
        if let Some(s) = &self.smpl {
            sdta_subs.push(chunk(b"smpl", s));
        }
        let sdta = list(b"sdta", &sdta_subs);
        let mut pdta_subs = vec![
            chunk(b"phdr", &self.phdr),
            chunk(b"pbag", &self.pbag),
            chunk(b"pmod", &[0; 10]),
            chunk(b"pgen", &self.pgen),
            chunk(b"inst", &self.inst),
            chunk(b"ibag", &self.ibag),
            chunk(b"imod", &[0; 10]),
            chunk(b"igen", &self.igen),
        ];
        if let Some(s) = &self.shdr {
            pdta_subs.push(chunk(b"shdr", s));
        }
        let pdta = list(b"pdta", &pdta_subs);
        let mut body = self.form.to_vec();
        body.extend(info);
        body.extend(sdta);
        body.extend(pdta);
        chunk(b"RIFF", &body)
    }
}

fn decode(bank: &Bank) -> Result<SoundFont, ParseError> {
    SoundFont::new(&bank.build())
}

#[test]
fn soundfont3_load_test() {
    let mut bank = Bank::minimal();
    bank.version_major = 3;
    let result = SoundFont::new(&bank.build());
    match result {
        Ok(_) => assert!(false),
        Err(err) => match err {
            ParseError::UnsupportedSampleFormat => return,
            _ => assert!(false),
        },
    }
}

#[test]
fn minimal_bank_decodes() {
    let sf = decode(&Bank::minimal()).unwrap();
    assert_eq!(sf.get_presets().len(), 1);
    assert_eq!(sf.get_instruments().len(), 1);
    assert_eq!(sf.get_sample_headers().len(), 1);
    assert_eq!(sf.get_bits_per_sample(), 16);
    assert_eq!(sf.get_wave_data(), &[0, 100, -100, 0]);
    let preset = &sf.get_presets()[0];
    assert_eq!(preset.name, "Piano");
    assert_eq!(preset.bank_number, 0);
    assert_eq!(preset.patch_number, 0);
    assert_eq!(preset.regions.len(), 1);
    assert_eq!(preset.regions[0].instrument, 0);
    assert_eq!(preset.regions[0].gs.len(), 61);
    assert_eq!(preset.regions[0].gs[41], 0);
    let instrument = &sf.get_instruments()[0];
    assert_eq!(instrument.name, "Grand");
    assert_eq!(instrument.regions.len(), 1);
    let region = &instrument.regions[0];
    assert_eq!(region.sample_id, 0);
    assert_eq!(region.sample_start, 0);
    assert_eq!(region.sample_end, 4);
    assert_eq!(region.sample_start_loop, 1);
    assert_eq!(region.sample_end_loop, 3);
    assert_eq!(region.sample_rate, 44100);
    assert_eq!(region.sample_original_pitch, 60);
    assert_eq!(region.sample_pitch_correction, -2);
    let header = &sf.get_sample_headers()[0];
    assert_eq!(header.name, "Sample");
    assert_eq!(sf.get_info().bank_name, "Test bank");
    assert_eq!(sf.get_info().version.major, 2);
    assert_eq!(sf.get_info().version.minor, 1);
}

#[test]
fn decoding_twice_gives_the_same_regions() {
    let bytes = Bank::minimal().build();
    let a = SoundFont::new(&bytes).unwrap();
    let b = SoundFont::new(&bytes).unwrap();
    assert_eq!(a.get_presets()[0].regions[0].gs, b.get_presets()[0].regions[0].gs);
    assert_eq!(a.get_instruments()[0].regions[0].gs, b.get_instruments()[0].regions[0].gs);
}

#[test]
fn global_zone_supplies_defaults_and_zone_overrides() {
    let mut bank = Bank::minimal();
    // Global zone sets 8 and 9; the regular zone overrides 9 and sets 53.
    bank.inst = concat(&[inst_record("Grand", 0), inst_record("EOI", 2)]);
    bank.ibag = concat(&[bag_record(0), bag_record(2), bag_record(5)]);
    bank.igen = concat(&[
        gen_record(8, 1000),
        gen_record(9, 5),
        gen_record(9, 7),
        gen_record(17, 0xffff),
        gen_record(53, 0),
        gen_record(0, 0),
    ]);
    let sf = decode(&bank).unwrap();
    let regions = &sf.get_instruments()[0].regions;
    assert_eq!(regions.len(), 1);
    assert_eq!(regions[0].gs[8], 1000);
    assert_eq!(regions[0].gs[9], 7);
    assert_eq!(regions[0].gs[17], -1);
    assert_eq!(regions[0].gs[10], 0);
}

#[test]
fn later_record_of_a_type_wins_within_a_zone() {
    let mut bank = Bank::minimal();
    bank.igen = concat(&[gen_record(8, 1), gen_record(8, 2), gen_record(53, 0), gen_record(0, 0)]);
    bank.ibag = concat(&[bag_record(0), bag_record(3)]);
    let sf = decode(&bank).unwrap();
    assert_eq!(sf.get_instruments()[0].regions[0].gs[8], 2);
}

#[test]
fn zone_without_link_after_the_first_is_skipped() {
    let mut bank = Bank::minimal();
    bank.pbag = concat(&[bag_record(0), bag_record(1), bag_record(2)]);
    bank.pgen = concat(&[gen_record(41, 0), gen_record(8, 3), gen_record(0, 0)]);
    bank.phdr = concat(&[phdr_record("Piano", 0, 0, 0), phdr_record("EOP", 0, 0, 2)]);
    let sf = decode(&bank).unwrap();
    assert_eq!(sf.get_presets()[0].regions.len(), 1);
}

#[test]
fn generator_list_of_odd_length_is_malformed() {
    let mut bank = Bank::minimal();
    bank.pgen = concat(&[gen_record(41, 0), gen_record(0, 0), vec![0, 0]]);
    assert!(matches!(decode(&bank), Err(ParseError::InvalidGeneratorList)));
}

#[test]
fn generator_chunk_reads_all_but_the_terminator() {
    let bytes = concat(&[gen_record(8, 1000), gen_record(41, 2), gen_record(0, 0)]);
    let mut reader = BinaryReader::new(&bytes);
    let gens = Generator::read_from_chunk(&mut reader, 12).unwrap();
    assert_eq!(gens.len(), 2);
    assert_eq!(gens[0], Generator { generator_type: 8, value: 1000 });
    assert_eq!(gens[1], Generator { generator_type: 41, value: 2 });
    assert_eq!(reader.pos, 12);
}

#[test]
fn generator_chunk_size_not_a_multiple_of_four() {
    let bytes = vec![0u8; 16];
    for size in [1usize, 2, 3, 5, 6, 7, 9, 10, 11, 13] {
        let mut reader = BinaryReader::new(&bytes);
        assert!(matches!(
            Generator::read_from_chunk(&mut reader, size),
            Err(ParseError::InvalidGeneratorList)
        ));
    }
    let mut reader = BinaryReader::new(&bytes);
    assert!(matches!(
        Generator::read_from_chunk(&mut reader, 0),
        Err(ParseError::InvalidGeneratorList)
    ));
}

#[test]
fn generator_chunk_longer_than_input() {
    let bytes = vec![0u8; 8];
    let mut reader = BinaryReader::new(&bytes);
    assert!(matches!(Generator::read_from_chunk(&mut reader, 12), Err(ParseError::IoError)));
}

#[test]
fn zones_follow_the_bag_table() {
    let zones = Zone::create(&vec![0, 2, 2, 5], 5).unwrap();
    assert_eq!(zones, vec![
        Zone { start: 0, end: 2 },
        Zone { start: 2, end: 2 },
        Zone { start: 2, end: 5 }
    ]);
    assert!(matches!(Zone::create(&vec![0, 3, 2], 5), Err(ParseError::InvalidZoneList)));
    assert!(matches!(Zone::create(&vec![0, 6], 5), Err(ParseError::InvalidZoneList)));
    assert!(matches!(Zone::create(&vec![0], 5), Err(ParseError::ZoneNotFound)));
}

#[test]
fn instrument_index_out_of_range_is_reported() {
    let mut bank = Bank::minimal();
    bank.pgen = concat(&[gen_record(41, 5), gen_record(0, 0)]);
    match decode(&bank) {
        Err(ParseError::InvalidInstrumentId { preset_id, instrument_id }) => {
            assert_eq!(preset_id, 0);
            assert_eq!(instrument_id, 5);
        }
        _ => assert!(false),
    }
}

#[test]
fn sample_index_out_of_range_is_reported() {
    let mut bank = Bank::minimal();
    bank.igen = concat(&[gen_record(53, 1), gen_record(0, 0)]);
    match decode(&bank) {
        Err(ParseError::InvalidSampleId { instrument_id, sample_id }) => {
            assert_eq!(instrument_id, 0);
            assert_eq!(sample_id, 1);
        }
        _ => assert!(false),
    }
}

#[test]
fn negative_loop_offsets_become_zero() {
    let mut bank = Bank::minimal();
    bank.shdr = Some(concat(&[shdr_record("Sample", 0, 4, -3, -1), vec![0; 46]]));
    let sf = decode(&bank).unwrap();
    let region = &sf.get_instruments()[0].regions[0];
    assert_eq!(region.sample_start_loop, 0);
    assert_eq!(region.sample_end_loop, 0);
    assert_eq!(sf.get_sample_headers()[0].start_loop, -3);
}

#[test]
fn wrong_form_type_is_reported_with_both_tags() {
    let mut bank = Bank::minimal();
    bank.form = *b"sfbx";
    match decode(&bank) {
        Err(ParseError::InvalidRiffChunkType { expected, actual }) => {
            assert_eq!(expected, FourCC::from_bytes(*b"sfbk"));
            assert_eq!(actual, FourCC::from_bytes(*b"sfbx"));
        }
        _ => assert!(false),
    }
}

#[test]
fn compressed_samples_are_unsupported() {
    let mut bank = Bank::minimal();
    bank.version_major = 3;
    // The parameter list is broken too: it is never read.
    bank.pgen = vec![1, 2, 3];
    assert!(matches!(decode(&bank), Err(ParseError::UnsupportedSampleFormat)));
}

#[test]
fn missing_riff_tag() {
    let mut bytes = Bank::minimal().build();
    bytes[0] = b'X';
    assert!(matches!(SoundFont::new(&bytes), Err(ParseError::RiffChunkNotFound)));
}

#[test]
fn truncated_input_is_an_io_error() {
    let bytes = Bank::minimal().build();
    assert!(matches!(SoundFont::new(&bytes[..2]), Err(ParseError::IoError)));
    assert!(matches!(SoundFont::new(&bytes[..bytes.len() - 10]), Err(ParseError::IoError)));
}

#[test]
fn missing_list_chunk() {
    let mut bytes = Bank::minimal().build();
    bytes[12] = b'X';
    assert!(matches!(SoundFont::new(&bytes), Err(ParseError::ListChunkNotFound)));
}

#[test]
fn unknown_info_id() {
    let mut bytes = Bank::minimal().build();
    // The first sub-chunk of the information list starts at byte 24.
    bytes[24] = b'z';
    match SoundFont::new(&bytes) {
        Err(ParseError::ListContainsUnknownId(id)) => {
            assert_eq!(id, FourCC::from_bytes(*b"zfil"));
        }
        _ => assert!(false),
    }
}

#[test]
fn missing_sample_data() {
    let mut bank = Bank::minimal();
    bank.smpl = None;
    assert!(matches!(decode(&bank), Err(ParseError::SampleDataNotFound)));
}

#[test]
fn missing_sample_headers() {
    let mut bank = Bank::minimal();
    bank.shdr = None;
    match decode(&bank) {
        Err(ParseError::SubChunkNotFound(tag)) => {
            assert_eq!(tag, FourCC::from_bytes(*b"shdr"))
        }
        _ => assert!(false),
    }
}

#[test]
fn only_the_terminal_preset() {
    let mut bank = Bank::minimal();
    bank.phdr = phdr_record("EOP", 0, 0, 1);
    assert!(matches!(decode(&bank), Err(ParseError::PresetNotFound)));
}

#[test]
fn only_the_terminal_instrument() {
    let mut bank = Bank::minimal();
    bank.inst = inst_record("EOI", 1);
    assert!(matches!(decode(&bank), Err(ParseError::InstrumentNotFound)));
}

#[test]
fn preset_without_zones() {
    let mut bank = Bank::minimal();
    bank.phdr = concat(&[
        phdr_record("Empty", 0, 0, 0),
        phdr_record("Piano", 1, 0, 0),
        phdr_record("EOP", 0, 0, 1),
    ]);
    assert!(matches!(decode(&bank), Err(ParseError::InvalidPreset(0))));
}

#[test]
fn preset_list_of_bad_length() {
    let mut bank = Bank::minimal();
    bank.phdr.push(0);
    assert!(matches!(decode(&bank), Err(ParseError::InvalidPresetList)));
}

#[test]
fn preset_bag_range_past_the_zones() {
    let mut bank = Bank::minimal();
    bank.phdr = concat(&[phdr_record("Piano", 0, 0, 0), phdr_record("EOP", 0, 0, 4)]);
    assert!(matches!(decode(&bank), Err(ParseError::InvalidPresetList)));
}

#[test]
fn instrument_with_only_a_global_zone() {
    let mut bank = Bank::minimal();
    bank.igen = concat(&[gen_record(8, 1), gen_record(0, 0)]);
    assert!(matches!(decode(&bank), Err(ParseError::InvalidInstrument(0))));
}

#[test]
fn bag_running_past_the_generators() {
    let mut bank = Bank::minimal();
    bank.ibag = concat(&[bag_record(0), bag_record(7)]);
    assert!(matches!(decode(&bank), Err(ParseError::InvalidZoneList)));
}

#[test]
fn empty_bag_table() {
    let mut bank = Bank::minimal();
    bank.ibag = Vec::new();
    assert!(matches!(decode(&bank), Err(ParseError::ZoneNotFound)));
}

#[test]
fn sample_header_list_of_bad_length() {
    let mut bank = Bank::minimal();
    bank.shdr = Some(vec![0; 50]);
    assert!(matches!(decode(&bank), Err(ParseError::InvalidSampleHeaderList)));
}

#[test]
fn text_field_stops_at_the_first_zero() {
    let bytes = b"ab\0cd".to_vec();
    let mut reader = BinaryReader::new(&bytes);
    assert_eq!(reader.read_fixed_length_string(5).unwrap(), "ab");
    let bytes = b"abcd".to_vec();
    let mut reader = BinaryReader::new(&bytes);
    assert_eq!(reader.read_fixed_length_string(4).unwrap(), "abcd");
}

#[test]
fn little_endian_reads() {
    let bytes = vec![0x34, 0x12, 0xff, 0xff, 0x00, 0x00, 0x00, 0x80];
    let mut reader = BinaryReader::new(&bytes);
    assert_eq!(reader.read_u16().unwrap(), 0x1234);
    assert_eq!(reader.read_i16().unwrap(), -1);
    assert_eq!(reader.read_i32().unwrap(), i32::MIN);
    assert!(matches!(reader.read_u8(), Err(ParseError::IoError)));
}

#[test]
fn last_sample_chunk_wins_and_sm24_is_skipped() {
    let bank = Bank::minimal();
    let bytes = bank.build();
    // Rebuild the sample data list with two sample chunks and a 24-bit extension chunk.
    let sdta = list(
        b"sdta",
        &[
            chunk(b"smpl", &concat(&[i16le(1), i16le(2)])),
            chunk(b"sm24", &[9, 9]),
            chunk(b"smpl", &concat(&[i16le(7), i16le(-7), i16le(3)])),
        ],
    );
    let old_sdta = list(b"sdta", &[chunk(b"smpl", bank.smpl.as_ref().unwrap())]);
    let start = bytes.windows(old_sdta.len()).position(|w| w == &old_sdta[..]).unwrap();
    let mut body = bytes[8..start].to_vec();
    body.extend(sdta);
    body.extend_from_slice(&bytes[start + old_sdta.len()..]);
    let sf = SoundFont::new(&chunk(b"RIFF", &body)).unwrap();
    assert_eq!(sf.get_wave_data(), &[7, -7, 3]);
}

#[test]
fn unknown_sample_data_chunk() {
    let bank = Bank::minimal();
    let bytes = bank.build();
    let pos = bytes.windows(4).position(|w| w == b"smpl").unwrap();
    let mut bytes = bytes;
    bytes[pos] = b'x';
    match SoundFont::new(&bytes) {
        Err(ParseError::ListContainsUnknownId(id)) => {
            assert_eq!(id, FourCC::from_bytes(*b"xmpl"))
        }
        _ => assert!(false),
    }
}

#[test]
fn wrong_list_type_is_reported_with_both_tags() {
    let bank = Bank::minimal();
    let mut bytes = bank.build();
    let pos = bytes.windows(4).position(|w| w == b"pdta").unwrap();
    bytes[pos] = b'q';
    match SoundFont::new(&bytes) {
        Err(ParseError::InvalidListChunkType { expected, actual }) => {
            assert_eq!(expected, FourCC::from_bytes(*b"pdta"));
            assert_eq!(actual, FourCC::from_bytes(*b"qdta"));
        }
        _ => assert!(false),
    }
}

#[test]
fn region_offsets_move_sample_positions() {
    let mut bank = Bank::minimal();
    bank.igen = concat(&[
        gen_record(0, 2),
        gen_record(4, 1),
        gen_record(3, 0xffff),
        gen_record(45, 2),
        gen_record(53, 0),
        gen_record(0, 0),
    ]);
    bank.ibag = concat(&[bag_record(0), bag_record(5)]);
    let sf = decode(&bank).unwrap();
    let region = &sf.get_instruments()[0].regions[0];
    assert_eq!(region.get_sample_start(), 2 + 32768);
    assert_eq!(region.get_sample_end(), 4);
    assert_eq!(region.get_sample_start_loop(), 1 + 65536);
    assert_eq!(region.get_sample_end_loop(), 2);
}
