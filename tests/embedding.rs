use png_secret::bits::{byte_to_8bits, to_bitstream};
use png_secret::codec::{NaiveDecoder, NaiveEncoder, PngSecretDecoder, PngSecretEncoder};
use png_secret::naming::get_output_filename;
use png_secret::raster::RasterBuffer;
use png_secret::reader::{PngSecretReader, ReaderError};
use png_secret::writer::{PngSecretWriter, WriteError};

fn raster(width: u32, height: u32, fill: u8) -> RasterBuffer {
    let n = (width * height * 4) as usize;
    RasterBuffer::from_raw(width, height, vec![fill; n]).unwrap()
}

fn write(buffer: RasterBuffer, message: &[u8]) -> (Result<(), WriteError>, RasterBuffer) {
    let mut writer = PngSecretWriter::new(buffer, NaiveEncoder::new());
    writer.encoder.encode(message);
    let r = writer.write_image();
    (r, writer.buffer)
}

fn read(buffer: RasterBuffer) -> Result<Vec<u8>, ReaderError> {
    let mut reader = PngSecretReader::new(buffer, NaiveDecoder::new());
    reader.read_image()
}

#[test]
fn byte_splits_most_significant_bit_first() {
    assert_eq!(byte_to_8bits(&0x48), [0, 1, 0, 0, 1, 0, 0, 0]);
    assert_eq!(byte_to_8bits(&0x69), [0, 1, 1, 0, 1, 0, 0, 1]);
    assert_eq!(byte_to_8bits(&0), [0; 8]);
    assert_eq!(byte_to_8bits(&255), [1; 8]);
    assert_eq!(byte_to_8bits(&1), [0, 0, 0, 0, 0, 0, 0, 1]);
}

#[test]
fn bitstream_of_framed_message_has_eight_bits_per_byte() {
    assert_eq!(to_bitstream(&vec![0]), vec![0; 8]);
    assert_eq!(to_bitstream(&vec![]), Vec::<u8>::new());
    let bits = to_bitstream(&vec![b'H', b'i', 0]);
    assert_eq!(bits.len(), 24);
    assert_eq!(
        bits,
        vec![0, 1, 0, 0, 1, 0, 0, 0, 0, 1, 1, 0, 1, 0, 0, 1, 0, 0, 0, 0, 0, 0, 0, 0]
    );
}

#[test]
fn hi_into_white_four_by_four() {
    let (r, buffer) = write(raster(4, 4, 0xFF), b"Hi");
    assert_eq!(r, Ok(()));
    let lsbs = [0, 1, 0, 0, 1, 0, 0, 0, 0, 1, 1, 0, 1, 0, 0, 1, 0, 0, 0, 0, 0, 0, 0, 0];
    for (i, bit) in lsbs.iter().enumerate() {
        assert_eq!(buffer.sample(i) % 2, *bit);
        assert_eq!(buffer.sample(i), 0xFE + *bit);
    }
    for i in 24..64 {
        assert_eq!(buffer.sample(i), 0xFF);
    }
    assert_eq!(read(buffer), Ok(vec![0x48, 0x69]));
}

#[test]
fn empty_message_reads_back_empty() {
    let (r, buffer) = write(raster(1, 2, 0x7B), b"");
    assert_eq!(r, Ok(()));
    assert_eq!(read(buffer), Ok(vec![]));
}

#[test]
fn untouched_raster_has_no_message() {
    assert_eq!(read(raster(4, 4, 0xFF)), Err(ReaderError::NoEmbeddedMessage));
    assert_eq!(read(raster(0, 0, 0)), Err(ReaderError::NoEmbeddedMessage));
    // Fewer than eight samples never assemble a byte, not even a zero one.
    assert_eq!(read(raster(1, 1, 0)), Err(ReaderError::NoEmbeddedMessage));
}

#[test]
fn zero_samples_read_as_empty_message() {
    assert_eq!(read(raster(2, 1, 0)), Ok(vec![]));
}

#[test]
fn round_trip_keeps_the_message() {
    let message = b"steganography, with all sorts of bytes \x01\x7f\x80\xfe\xff";
    let (r, buffer) = write(raster(20, 20, 0x5A), message);
    assert_eq!(r, Ok(()));
    assert_eq!(read(buffer), Ok(message.to_vec()));
}

#[test]
fn writing_twice_gives_the_same_samples() {
    let (_, once) = write(raster(5, 3, 0x33), b"twice");
    let once = once.into_raw();
    let (_, again) = write(RasterBuffer::from_raw(5, 3, once.clone()).unwrap(), b"twice");
    assert_eq!(again.into_raw(), once);
}

#[test]
fn exact_capacity_fills_every_sample() {
    // 2 x 3 pixels hold 24 samples: two bytes and the closing zero byte.
    let (r, buffer) = write(raster(2, 3, 0xFF), b"Hi");
    assert_eq!(r, Ok(()));
    let samples = buffer.into_raw();
    let bits = to_bitstream(&vec![b'H', b'i', 0]);
    for i in 0..24 {
        assert_eq!(samples[i] % 2, bits[i]);
    }
    let buffer = RasterBuffer::from_raw(2, 3, samples).unwrap();
    assert_eq!(read(buffer), Ok(b"Hi".to_vec()));
}

#[test]
fn over_capacity_is_refused_and_writes_nothing() {
    // 24 samples, but "Hi!" needs 32 bits.
    let (r, buffer) = write(raster(2, 3, 0xFF), b"Hi!");
    assert_eq!(r, Err(WriteError::CapacityViolation));
    assert_eq!(buffer.into_raw(), vec![0xFF; 24]);
    // One pixel has four samples, fewer than the eight bits of the closing byte.
    let (r, buffer) = write(raster(1, 1, 0x10), b"");
    assert_eq!(r, Err(WriteError::CapacityViolation));
    assert_eq!(buffer.into_raw(), vec![0x10; 4]);
}

#[test]
fn embedded_zero_ends_the_message_early() {
    let (r, buffer) = write(raster(4, 4, 0xFF), &[0x41, 0x42, 0, 0x43]);
    assert_eq!(r, Ok(()));
    assert_eq!(read(buffer), Ok(vec![0x41, 0x42]));
}

#[test]
fn decoder_hands_bytes_back_unchanged() {
    let mut decoder = NaiveDecoder::new();
    assert_eq!(decoder.decode(vec![3, 0, 9]), vec![3, 0, 9]);
}

#[test]
fn raster_keeps_dimensions_and_checks_sample_count() {
    let buffer = raster(3, 2, 1);
    assert_eq!(buffer.width(), 3);
    assert_eq!(buffer.height(), 2);
    assert_eq!(buffer.sample_count(), 24);
    assert!(RasterBuffer::from_raw(3, 2, vec![0; 23]).is_none());
    assert!(RasterBuffer::from_raw(3, 2, vec![0; 25]).is_none());
    let writer = PngSecretWriter::new(buffer, NaiveEncoder::new());
    assert_eq!(writer.capacity(), 3);
}

#[test]
fn output_name_replaces_extension() {
    assert_eq!(get_output_filename(&"pic.png".to_string(), &None), "pic.enc.png");
    assert_eq!(get_output_filename(&"dir/photo".to_string(), &None), "dir/photo.enc.png");
    assert_eq!(
        get_output_filename(&"pic.png".to_string(), &Some("out.png".to_string())),
        "out.png"
    );
}
