pub mod voice_recognition;
